use std::collections::BTreeMap;
use std::collections::VecDeque;
use std::ops::Bound;
use std::ops::Deref;
use std::sync::{Arc, Mutex};
use typed_kv::engine::drain_keys;
use typed_kv::scan::{Direction, RangeError, ScanPlan};
use typed_kv::types::{ByteSlice, Empty, Ignore, OwnedType, Str};
use typed_kv::{readtx, writetx, Cursor, Failure, Store, Table, Tables, Transaction, Typed};

type Rows = BTreeMap<Vec<u8>, Vec<u8>>;
type Data = BTreeMap<String, Rows>;

/// An engine in memory. A transaction works on a copy of the data, taken when
/// it is opened; a writing transaction puts its copy in place when it commits.
struct Mem {
    data: Arc<Mutex<Data>>,
    fail_commit: bool,
}

impl Mem {
    fn new() -> Mem {
        Mem { data: Arc::new(Mutex::new(Data::new())), fail_commit: false }
    }
}

#[derive(Debug, PartialEq)]
struct Broken(&'static str);

struct MemRtx {
    seen: Data,
    fail_commit: bool,
}

struct MemWtx {
    view: MemRtx,
    target: Arc<Mutex<Data>>,
}

impl Deref for MemWtx {
    type Target = MemRtx;

    fn deref(&self) -> &MemRtx {
        &self.view
    }
}

impl Transaction for MemRtx {
    type Error = Broken;

    fn commit(self) -> Result<(), Broken> {
        if self.fail_commit {
            Err(Broken("commit"))
        } else {
            Ok(())
        }
    }
}

impl Transaction for MemWtx {
    type Error = Broken;

    fn commit(self) -> Result<(), Broken> {
        if self.view.fail_commit {
            return Err(Broken("commit"));
        }
        *self.target.lock().unwrap() = self.view.seen;
        Ok(())
    }
}

struct MemCursor {
    left: VecDeque<(Vec<u8>, Vec<u8>)>,
    fail_after: Option<usize>,
}

impl Cursor for MemCursor {
    type Error = Broken;

    fn next_entry(&mut self) -> Option<Result<(Vec<u8>, Vec<u8>), Broken>> {
        if let Some(n) = self.fail_after {
            if n == 0 {
                return Some(Err(Broken("cursor")));
            }
            self.fail_after = Some(n - 1);
        }
        self.left.pop_front().map(Ok)
    }
}

#[derive(Clone)]
struct MemTable {
    name: String,
    poisoned_key: Option<Vec<u8>>,
}

impl MemTable {
    fn rows<'a>(&self, txn: &'a MemRtx) -> Result<&'a Rows, Broken> {
        txn.seen.get(&self.name).ok_or(Broken("no such table"))
    }
}

impl Table for MemTable {
    type Error = Broken;
    type Rtx = MemRtx;
    type Wtx = MemWtx;
    type Cursor<'t> = MemCursor;

    fn fetch(&self, txn: &MemRtx, key: &[u8]) -> Result<Option<Vec<u8>>, Broken> {
        Ok(self.rows(txn)?.get(key).cloned())
    }

    fn scan<'t>(&'t self, txn: &'t MemRtx, plan: ScanPlan) -> Result<MemCursor, Broken> {
        let rows = self.rows(txn)?;
        let mut found: Vec<(Vec<u8>, Vec<u8>)> = rows
            .iter()
            .filter(|(k, _)| match (&plan.start, plan.direction) {
                (Some(s), Direction::Forward) => *k >= s,
                (Some(s), Direction::Reverse) => *k <= s,
                (None, _) => true,
            })
            .filter(|(k, _)| plan.lower.as_ref().map_or(true, |l| *k >= l))
            .filter(|(k, _)| plan.upper.as_ref().map_or(true, |u| *k < u))
            .map(|(k, v)| (k.clone(), v.clone()))
            .collect();
        if plan.direction == Direction::Reverse {
            found.reverse();
        }
        Ok(MemCursor { left: found.into(), fail_after: None })
    }

    fn len(&self, txn: &MemRtx) -> Result<usize, Broken> {
        Ok(self.rows(txn)?.len())
    }

    fn store(&self, txn: &mut MemWtx, key: &[u8], value: &[u8]) -> Result<(), Broken> {
        let rows = txn.view.seen.get_mut(&self.name).ok_or(Broken("no such table"))?;
        rows.insert(key.to_vec(), value.to_vec());
        Ok(())
    }

    fn erase(&self, txn: &mut MemWtx, key: &[u8]) -> Result<(), Broken> {
        if self.poisoned_key.as_deref() == Some(key) {
            return Err(Broken("erase"));
        }
        let rows = txn.view.seen.get_mut(&self.name).ok_or(Broken("no such table"))?;
        rows.remove(key);
        Ok(())
    }
}

impl Store for Mem {
    type Error = Broken;
    type Rtx = MemRtx;
    type Wtx = MemWtx;
    type Table = MemTable;
    type Config = ();

    fn table(&self, name: &str, _cfg: &()) -> Result<MemTable, Broken> {
        if name.is_empty() {
            return Err(Broken("no name"));
        }
        self.data.lock().unwrap().entry(name.to_string()).or_default();
        Ok(MemTable { name: name.to_string(), poisoned_key: None })
    }

    fn rtx(&self) -> Result<MemRtx, Broken> {
        Ok(MemRtx { seen: self.data.lock().unwrap().clone(), fail_commit: self.fail_commit })
    }

    fn wtx(&self) -> Result<MemWtx, Broken> {
        Ok(MemWtx { view: self.rtx()?, target: self.data.clone() })
    }
}

type Numbers = Typed<MemTable, OwnedType<u8>, Str>;

fn numbers(store: &Mem) -> Numbers {
    let table: Numbers = store.typed("numbers", &()).unwrap();
    let mut txn = store.wtx().unwrap();
    for (k, v) in [(3u8, "three"), (1, "one"), (5, "five"), (2, "two"), (4, "four")] {
        table.put(&mut txn, &k, v).unwrap();
    }
    txn.commit().unwrap();
    table
}

fn all<C: Cursor<Error = Broken>>(
    mut it: typed_kv::Iter<C, OwnedType<u8>, Str>,
) -> Vec<(u8, String)> {
    let mut out = Vec::new();
    while let Some(entry) = it.next() {
        match entry {
            Ok(pair) => out.push(pair),
            Err(_) => panic!("the scan failed"),
        }
    }
    out
}

fn pairs(keys: &[u8]) -> Vec<(u8, String)> {
    let names = ["zero", "one", "two", "three", "four", "five"];
    keys.iter().map(|k| (*k, names[*k as usize].to_string())).collect()
}

#[test]
fn table_creation_is_idempotent() {
    let store = Mem::new();
    let first: Numbers = store.typed("numbers", &()).unwrap();
    let mut txn = store.wtx().unwrap();
    first.put(&mut txn, &9, "nine").unwrap();
    txn.commit().unwrap();
    let second: Numbers = store.typed("numbers", &()).unwrap();
    let txn = store.rtx().unwrap();
    assert_eq!(first.get(&txn, &9).unwrap(), Some("nine".to_string()));
    assert_eq!(second.get(&txn, &9).unwrap(), Some("nine".to_string()));
    assert_eq!(second.len(&txn).unwrap(), 1);
}

#[test]
fn table_creation_failure_is_handed_on() {
    let store = Mem::new();
    let made: Result<Numbers, Broken> = store.typed("", &());
    assert_eq!(made.err(), Some(Broken("no name")));
}

#[test]
fn get_finds_what_put_stored() {
    let store = Mem::new();
    let table = numbers(&store);
    let txn = store.rtx().unwrap();
    assert_eq!(table.get(&txn, &3).unwrap(), Some("three".to_string()));
    assert_eq!(table.get(&txn, &6).unwrap(), None);
    assert_eq!(table.len(&txn).unwrap(), 5);
}

#[test]
fn get_gives_nothing_for_an_undecodable_value() {
    let store = Mem::new();
    let table = numbers(&store);
    let raw: Typed<MemTable, OwnedType<u8>, ByteSlice> = table.clone().remap_data_type();
    let mut txn = store.wtx().unwrap();
    raw.put(&mut txn, &7, &[0xFF, 0xFE][..]).unwrap();
    txn.commit().unwrap();
    let txn = store.rtx().unwrap();
    assert_eq!(table.get(&txn, &7).unwrap(), None);
    assert_eq!(raw.get(&txn, &7).unwrap(), Some(vec![0xFF, 0xFE]));
}

#[test]
fn put_replaces_and_append_does_the_same() {
    let store = Mem::new();
    let table = numbers(&store);
    let mut txn = store.wtx().unwrap();
    table.put(&mut txn, &3, "drei").unwrap();
    table.append(&mut txn, &4, "vier").unwrap();
    table.append(&mut txn, &6, "sechs").unwrap();
    txn.commit().unwrap();
    let txn = store.rtx().unwrap();
    assert_eq!(table.get(&txn, &3).unwrap(), Some("drei".to_string()));
    assert_eq!(table.get(&txn, &4).unwrap(), Some("vier".to_string()));
    assert_eq!(table.get(&txn, &6).unwrap(), Some("sechs".to_string()));
    assert_eq!(table.len(&txn).unwrap(), 6);
}

#[test]
fn delete_removes_and_ignores_what_is_absent() {
    let store = Mem::new();
    let table = numbers(&store);
    let mut txn = store.wtx().unwrap();
    table.delete(&mut txn, &2).unwrap();
    table.delete(&mut txn, &9).unwrap();
    txn.commit().unwrap();
    let txn = store.rtx().unwrap();
    assert_eq!(table.get(&txn, &2).unwrap(), None);
    assert_eq!(table.len(&txn).unwrap(), 4);
}

#[test]
fn forward_range_half_open() {
    let store = Mem::new();
    let table = numbers(&store);
    let txn = store.rtx().unwrap();
    let it = table.range(&txn, Bound::Included(&2), Bound::Excluded(&4)).unwrap();
    assert_eq!(all(it), pairs(&[2, 3]));
}

#[test]
fn forward_range_closed() {
    let store = Mem::new();
    let table = numbers(&store);
    let txn = store.rtx().unwrap();
    let it = table.range(&txn, Bound::Included(&2), Bound::Included(&4)).unwrap();
    assert_eq!(all(it), pairs(&[2, 3, 4]));
}

#[test]
fn forward_range_open_start() {
    let store = Mem::new();
    let table = numbers(&store);
    let txn = store.rtx().unwrap();
    let it = table.range(&txn, Bound::Excluded(&2), Bound::Unbounded).unwrap();
    assert_eq!(all(it), pairs(&[3, 4, 5]));
    let it = table.range(&txn, Bound::Unbounded, Bound::Unbounded).unwrap();
    assert_eq!(all(it), pairs(&[1, 2, 3, 4, 5]));
    let it = table.range(&txn, Bound::Excluded(&5), Bound::Unbounded).unwrap();
    assert_eq!(all(it), pairs(&[]));
}

#[test]
fn reverse_range_descends() {
    let store = Mem::new();
    let table = numbers(&store);
    let txn = store.rtx().unwrap();
    let it = table.rev_range(&txn, Bound::Included(&3), Bound::Included(&4)).ok().unwrap();
    assert_eq!(all(it), pairs(&[4, 3]));
    let it = table.rev_range(&txn, Bound::Included(&3), Bound::Excluded(&5)).ok().unwrap();
    assert_eq!(all(it), pairs(&[4, 3]));
    let it = table.rev_range(&txn, Bound::Unbounded, Bound::Unbounded).ok().unwrap();
    assert_eq!(all(it), pairs(&[5, 4, 3, 2, 1]));
    let it = table.rev_range(&txn, Bound::Unbounded, Bound::Excluded(&1)).ok().unwrap();
    assert_eq!(all(it), pairs(&[]));
}

#[test]
fn reverse_range_refuses_an_exclusive_lower_bound() {
    let store = Mem::new();
    let table = numbers(&store);
    let txn = store.rtx().unwrap();
    let refused = table.rev_range(&txn, Bound::Excluded(&2), Bound::Included(&4));
    assert!(matches!(refused, Err(Failure::Range(RangeError::ExcludedLowerBound))));
}

#[test]
fn reverse_range_refuses_an_empty_exclusive_upper_bound() {
    let store = Mem::new();
    let raw: Typed<MemTable, ByteSlice, Ignore> = numbers(&store).remap_types();
    let txn = store.rtx().unwrap();
    let refused = raw.rev_range(&txn, Bound::Unbounded, Bound::Excluded(&[][..]));
    assert!(matches!(refused, Err(Failure::Range(RangeError::EmptyUpperBound))));
}

#[test]
fn scan_marks_an_undecodable_entry() {
    let store = Mem::new();
    let table = numbers(&store);
    let raw: Typed<MemTable, OwnedType<u8>, ByteSlice> = table.clone().remap_data_type();
    let mut txn = store.wtx().unwrap();
    raw.put(&mut txn, &2, &[0xFF][..]).unwrap();
    txn.commit().unwrap();
    let txn = store.rtx().unwrap();
    let mut it = table.range(&txn, Bound::Unbounded, Bound::Unbounded).unwrap();
    assert!(matches!(it.next(), Some(Ok((1, _)))));
    assert!(matches!(it.next(), Some(Err(Failure::Undecodable))));
    assert!(matches!(it.next(), Some(Ok((3, _)))));
}

#[test]
fn scan_hands_on_the_failure_of_the_engine() {
    let cursor = MemCursor { left: vec![(vec![1], vec![])].into(), fail_after: Some(1) };
    let mut it: typed_kv::Iter<MemCursor, OwnedType<u8>, Empty> = typed_kv::Iter::new(cursor);
    assert!(matches!(it.next(), Some(Ok((1, ())))));
    assert!(matches!(it.next(), Some(Err(Failure::Engine(Broken("cursor"))))));
}

#[test]
fn drain_keys_gathers_in_order_and_stops_at_a_failure() {
    let rows = vec![(vec![1], vec![9]), (vec![2], vec![]), (vec![2, 0], vec![7])];
    let mut cursor = MemCursor { left: rows.clone().into(), fail_after: None };
    assert_eq!(drain_keys(&mut cursor), Ok(vec![vec![1], vec![2], vec![2, 0]]));
    let mut cursor = MemCursor { left: rows.into(), fail_after: Some(2) };
    assert_eq!(drain_keys(&mut cursor), Err(Broken("cursor")));
}

#[test]
fn writes_are_unseen_until_commit() {
    let store = Mem::new();
    let table = numbers(&store);
    let mut writer = store.wtx().unwrap();
    table.put(&mut writer, &6, "six").unwrap();
    table.delete(&mut writer, &1).unwrap();
    let reader = store.rtx().unwrap();
    assert_eq!(table.get(&reader, &6).unwrap(), None);
    assert_eq!(table.get(&reader, &1).unwrap(), Some("one".to_string()));
    assert_eq!(table.get(&writer, &6).unwrap(), Some("six".to_string()));
    writer.commit().unwrap();
    assert_eq!(table.get(&reader, &6).unwrap(), None);
    let later = store.rtx().unwrap();
    assert_eq!(table.get(&later, &6).unwrap(), Some("six".to_string()));
    assert_eq!(table.get(&later, &1).unwrap(), None);
}

#[test]
fn dropped_writes_are_lost() {
    let store = Mem::new();
    let table = numbers(&store);
    {
        let mut writer = store.wtx().unwrap();
        table.put(&mut writer, &6, "six").unwrap();
    }
    let reader = store.rtx().unwrap();
    assert_eq!(table.get(&reader, &6).unwrap(), None);
    assert_eq!(table.len(&reader).unwrap(), 5);
}

#[test]
fn clear_empties_the_table() {
    let store = Mem::new();
    let table = numbers(&store);
    let mut txn = store.wtx().unwrap();
    table.clear(&mut txn).unwrap();
    assert_eq!(table.len(&txn).unwrap(), 0);
    txn.commit().unwrap();
    let txn = store.rtx().unwrap();
    assert_eq!(table.len(&txn).unwrap(), 0);
    for k in 1u8..=5 {
        assert_eq!(table.get(&txn, &k).unwrap(), None);
    }
    let it = table.range(&txn, Bound::Unbounded, Bound::Unbounded).unwrap();
    assert_eq!(all(it), pairs(&[]));
}

#[test]
fn clear_leaves_other_tables_alone() {
    let store = Mem::new();
    let table = numbers(&store);
    let other: Typed<MemTable, Str, Empty> = store.typed("others", &()).unwrap();
    let mut txn = store.wtx().unwrap();
    other.put(&mut txn, "kept", &()).unwrap();
    table.clear(&mut txn).unwrap();
    txn.commit().unwrap();
    let txn = store.rtx().unwrap();
    assert_eq!(other.get(&txn, "kept").unwrap(), Some(()));
    assert_eq!(other.len(&txn).unwrap(), 1);
}

#[test]
fn clear_stops_at_the_first_failure() {
    let store = Mem::new();
    numbers(&store);
    let table: Numbers =
        Typed::new(MemTable { name: "numbers".to_string(), poisoned_key: Some(vec![3]) });
    let mut txn = store.wtx().unwrap();
    assert_eq!(table.clear(&mut txn), Err(Broken("erase")));
    assert_eq!(table.get(&txn, &1).unwrap(), None);
    assert_eq!(table.get(&txn, &2).unwrap(), None);
    assert_eq!(table.get(&txn, &3).unwrap(), Some("three".to_string()));
    assert_eq!(table.get(&txn, &4).unwrap(), Some("four".to_string()));
}

#[test]
fn remap_keeps_the_table() {
    let store = Mem::new();
    let table = numbers(&store);
    let raw: Typed<MemTable, ByteSlice, ByteSlice> = table.remap_types();
    let txn = store.rtx().unwrap();
    assert_eq!(raw.get(&txn, &[2u8][..]).unwrap(), Some(b"two".to_vec()));
    let keyed: Typed<MemTable, OwnedType<u8>, ByteSlice> = raw.remap_key_type();
    assert_eq!(keyed.get(&txn, &2).unwrap(), Some(b"two".to_vec()));
    let back: Numbers = keyed.remap_data_type();
    assert_eq!(back.get(&txn, &2).unwrap(), Some("two".to_string()));
}

#[test]
fn with_wtx_commits_on_success() {
    let store = Mem::new();
    let table = numbers(&store);
    let out = writetx(&store, |txn: &mut MemWtx| {
        table.put(txn, &6, "six")?;
        Ok(42)
    });
    assert_eq!(out, Ok(42));
    let seen = readtx(&store, |txn: &MemRtx| table.get(txn, &6));
    assert_eq!(seen, Ok(Some("six".to_string())));
}

#[test]
fn with_wtx_does_not_commit_on_failure() {
    let store = Mem::new();
    let table = numbers(&store);
    let out: Result<(), Broken> = store.with_wtx(|txn: &mut MemWtx| {
        table.put(txn, &6, "six")?;
        Err(Broken("changed my mind"))
    });
    assert_eq!(out, Err(Broken("changed my mind")));
    let seen = store.with_rtx(|txn: &MemRtx| table.get(txn, &6));
    assert_eq!(seen, Ok(None));
}

#[test]
fn with_wtx_hands_on_a_failed_commit() {
    let mut store = Mem::new();
    let table = numbers(&store);
    store.fail_commit = true;
    let out = store.with_wtx(|txn: &mut MemWtx| table.put(txn, &6, "six"));
    assert_eq!(out, Err(Broken("commit")));
    let read = store.with_rtx(|txn: &MemRtx| table.get(txn, &1));
    assert_eq!(read, Err(Broken("commit")));
    store.fail_commit = false;
    assert_eq!(store.with_rtx(|txn: &MemRtx| table.get(txn, &6)), Ok(None));
}

struct Both {
    numbers: Numbers,
    store: Arc<Mem>,
}

#[test]
fn tables_keeps_engine_and_tables_together() {
    let both = Tables::new(Mem::new(), &(), |store: &Arc<Mem>, cfg: &()| {
        Ok(Both { numbers: store.typed("numbers", cfg)?, store: store.clone() })
    })
    .ok()
    .unwrap();
    assert_eq!(Arc::strong_count(&both.store), 2);
    assert!(Arc::ptr_eq(&both.store, &both.table.store));
    let mut txn = both.store.wtx().unwrap();
    both.numbers.put(&mut txn, &1, "one").unwrap();
    txn.commit().unwrap();
    let txn = both.store.rtx().unwrap();
    assert_eq!(both.numbers.get(&txn, &1).unwrap(), Some("one".to_string()));
    let Tables { table, store } = both;
    drop(table);
    assert_eq!(Arc::strong_count(&store), 1);
}

#[test]
fn tables_hands_on_a_failure_to_open() {
    let made: Result<Tables<Mem, Both>, Broken> =
        Tables::new(Mem::new(), &(), |store: &Arc<Mem>, cfg: &()| {
            Ok(Both { numbers: store.typed("", cfg)?, store: store.clone() })
        });
    assert_eq!(made.err(), Some(Broken("no name")));
}
