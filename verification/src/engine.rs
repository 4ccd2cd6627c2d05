//! What a storage engine has to offer, and the typed operations on top of it.
//!
//! An engine deals in raw bytes: it fetches, stores and erases by encoded key and
//! runs scans. The typed operations encode keys and values, work out the scan
//! for a range, and decode what comes back. What an engine answers is for the
//! engine to say; the contracts here state what is asked of it and what is made
//! of each answer.

use crate::format::{decodes, encode_owned, encoded_bytes, encodes, DFormat, EFormat};
use crate::scan::{bound_view, forward_of, forward_plan, reverse_of, reverse_plan, reverse_refusal};
use crate::scan::{RangeError, ScanPlan};
use crate::typed::Typed;
use std::marker::PhantomData;
use std::ops::Bound;
use std::ops::Deref;
use vstd::prelude::*;

verus! {

/// Why a typed operation gave no result.
#[derive(Debug)]
pub enum Failure<E> {
    /// The engine failed; this is what it said.
    Engine(E),
    /// A scan came to an entry whose key or value its codec cannot decode.
    Undecodable,
    /// No backward scan serves the range that was asked for.
    Range(RangeError),
}

/// A transaction: a view of the engine that ends with `commit`. One that is
/// dropped instead leaves nothing behind.
pub trait Transaction: Sized {
    /// What the engine says when it fails.
    type Error;

    fn commit(self) -> Result<(), Self::Error>;
}

/// A running scan: raw entries, one by one, until there is none left.
pub trait Cursor {
    /// What the engine says when it fails.
    type Error;

    fn next_entry(&mut self) -> Option<Result<(Vec<u8>, Vec<u8>), Self::Error>>;
}

/// What a scan makes of a raw entry: both parts decoded, or `Undecodable` where
/// one of them cannot be; the engine's failure as it is; the end as the end.
pub open spec fn typed_entry_of<KC: DFormat, DC: DFormat, E>(
    raw: Option<Result<(Vec<u8>, Vec<u8>), E>>,
    out: Option<Result<(KC::DItem, DC::DItem), Failure<E>>>,
) -> bool {
    match raw {
        None => out is None,
        Some(Err(e)) => out == Some(Err::<(KC::DItem, DC::DItem), Failure<E>>(Failure::Engine(e))),
        Some(Ok((k, v))) => exists|key: Option<KC::DItem>, value: Option<DC::DItem>|
            {
                &&& decodes::<KC>(k@, key)
                &&& decodes::<DC>(v@, value)
                &&& out == Some(
                    match (key, value) {
                        (Some(a), Some(b)) => Ok::<(KC::DItem, DC::DItem), Failure<E>>((a, b)),
                        _ => Err(Failure::Undecodable),
                    },
                )
            },
    }
}

/// Makes a typed entry of a raw one.
pub fn typed_entry<KC: DFormat, DC: DFormat, E>(raw: Option<Result<(Vec<u8>, Vec<u8>), E>>) -> (out:
    Option<Result<(KC::DItem, DC::DItem), Failure<E>>>)
    ensures
        typed_entry_of::<KC, DC, E>(raw, out),
{
    match raw {
        None => None,
        Some(Err(e)) => Some(Err(Failure::Engine(e))),
        Some(Ok((k, v))) => {
            let key = KC::decode(k.as_slice());
            let value = DC::decode(v.as_slice());
            assert(decodes::<KC>(k@, key));
            assert(decodes::<DC>(v@, value));
            match (key, value) {
                (Some(a), Some(b)) => Some(Ok((a, b))),
                _ => Some(Err(Failure::Undecodable)),
            }
        },
    }
}

/// A typed scan: the entries of a cursor, decoded with `KC` and `DC`.
pub struct Iter<C, KC, DC> {
    it: C,
    _p: PhantomData<(KC, DC)>,
}

impl<C: Cursor, KC: DFormat, DC: DFormat> Iter<C, KC, DC> {
    /// The cursor that the entries come from.
    pub closed spec fn cursor(&self) -> C {
        self.it
    }

    /// A typed scan over `it`.
    pub fn new(it: C) -> (r: Self)
        ensures
            r.cursor() == it,
    {
        Iter { it, _p: PhantomData }
    }

    /// The next entry: the cursor's next raw entry, decoded.
    pub fn next(&mut self) -> (out: Option<Result<(KC::DItem, DC::DItem), Failure<C::Error>>>)
        ensures
            exists|c: &mut C, raw: Option<Result<(Vec<u8>, Vec<u8>), C::Error>>|
                {
                    &&& *c == old(self).cursor()
                    &&& *final(c) == final(self).cursor()
                    &&& call_ensures(C::next_entry, (c,), raw)
                    &&& typed_entry_of::<KC, DC, C::Error>(raw, out)
                },
    {
        let raw = self.it.next_entry();
        typed_entry::<KC, DC, C::Error>(raw)
    }
}

/// What a lookup makes of the engine's answer: the value decoded, where there is
/// one; nothing where there is none or it cannot be decoded; the engine's
/// failure as it is.
pub open spec fn typed_fetch_of<DC: DFormat, E>(
    raw: Result<Option<Vec<u8>>, E>,
    out: Result<Option<DC::DItem>, E>,
) -> bool {
    match raw {
        Ok(Some(v)) => out matches Ok(item) && decodes::<DC>(v@, item),
        Ok(None) => out == Ok::<Option<DC::DItem>, E>(None),
        Err(e) => out == Err::<Option<DC::DItem>, E>(e),
    }
}

/// Makes a typed value of what a lookup found.
pub fn typed_fetch<DC: DFormat, E>(raw: Result<Option<Vec<u8>>, E>) -> (out: Result<
    Option<DC::DItem>,
    E,
>)
    ensures
        typed_fetch_of::<DC, E>(raw, out),
{
    match raw {
        Ok(Some(v)) => {
            let item = DC::decode(v.as_slice());
            assert(decodes::<DC>(v@, item));
            Ok(item)
        },
        Ok(None) => Ok(None),
        Err(e) => Err(e),
    }
}

/// `F` may encode the key of the bound `b` as the key of `out`, which is a bound
/// of the same kind.
pub open spec fn encodes_bound<'e, F: EFormat<'e>>(
    b: Bound<&'e F::EItem>,
    out: Bound<Seq<u8>>,
) -> bool {
    match b {
        Bound::Included(k) => out matches Bound::Included(bytes) && encodes::<F>(k, bytes),
        Bound::Excluded(k) => out matches Bound::Excluded(bytes) && encodes::<F>(k, bytes),
        Bound::Unbounded => out is Unbounded,
    }
}

/// Encodes the key of a range bound.
pub fn encode_bound<'e, F: EFormat<'e>>(b: Bound<&'e F::EItem>) -> (out: Bound<Vec<u8>>)
    ensures
        encodes_bound::<F>(b, bound_view(out)),
{
    match b {
        Bound::Included(k) => Bound::Included(encode_owned::<F>(k)),
        Bound::Excluded(k) => Bound::Excluded(encode_owned::<F>(k)),
        Bound::Unbounded => Bound::Unbounded,
    }
}

/// The keys of the entries that are left in `cursor`, in the order in which it
/// yields them. The walk ends where the cursor says that nothing is left, and is
/// given up where it fails; it also ends where as many keys are held as a
/// machine can count.
///
/// In the contract `trail` holds the states that the cursor went through while
/// it yielded entries: the `i`-th entry took it from `trail[i]` to
/// `trail[i + 1]`.
pub fn drain_keys<C: Cursor>(cursor: &mut C) -> (out: Result<Vec<Vec<u8>>, C::Error>)
    ensures
        exists|trail: Seq<C>|
            #![trigger trail.len()]
            {
                &&& trail.len() >= 1
                &&& trail[0] == *old(cursor)
                &&& out matches Ok(keys) ==> keys@.len() == trail.len() - 1
                &&& forall|i: int|
                    #![trigger trail[i]]
                    0 <= i < trail.len() - 1 ==> exists|c: &mut C, e: (Vec<u8>, Vec<u8>)|
                        #![trigger call_ensures(C::next_entry, (c,), Some(Ok(e)))]
                        {
                            &&& *c == trail[i]
                            &&& *final(c) == trail[i + 1]
                            &&& call_ensures(C::next_entry, (c,), Some(Ok(e)))
                            &&& out matches Ok(keys) ==> keys@[i] == e.0
                        }
                &&& match out {
                    Ok(_) => (trail.len() - 1 == usize::MAX && trail.last() == *final(cursor))
                        || exists|c: &mut C|
                        #![trigger call_ensures(C::next_entry, (c,), None)]
                        {
                            &&& *c == trail.last()
                            &&& *final(c) == *final(cursor)
                            &&& call_ensures(C::next_entry, (c,), None)
                        },
                    Err(e) => exists|c: &mut C|
                        #![trigger call_ensures(C::next_entry, (c,), Some(Err(e)))]
                        {
                            &&& *c == trail.last()
                            &&& *final(c) == *final(cursor)
                            &&& call_ensures(C::next_entry, (c,), Some(Err(e)))
                        },
                }
            },
{
    let mut keys: Vec<Vec<u8>> = Vec::new();
    let mut failed: Option<C::Error> = None;
    let mut more: bool = true;
    let ghost mut trail: Seq<C> = seq![*cursor];
    let ghost mut last: Option<Result<(Vec<u8>, Vec<u8>), C::Error>> = None;
    while more && keys.len() < usize::MAX
        invariant
            trail.len() == keys@.len() + 1,
            trail[0] == *old(cursor),
            failed is Some ==> !more,
            more ==> trail.last() == *cursor,
            forall|i: int|
                #![trigger trail[i]]
                0 <= i < keys@.len() ==> exists|c: &mut C, e: (Vec<u8>, Vec<u8>)|
                    #![trigger call_ensures(C::next_entry, (c,), Some(Ok(e)))]
                    {
                        &&& *c == trail[i]
                        &&& *final(c) == trail[i + 1]
                        &&& call_ensures(C::next_entry, (c,), Some(Ok(e)))
                        &&& keys@[i] == e.0
                    },
            !more ==> last == (match failed {
                None => None,
                Some(e) => Some(Err::<(Vec<u8>, Vec<u8>), C::Error>(e)),
            }),
            !more ==> exists|c: &mut C|
                #![trigger call_ensures(C::next_entry, (c,), last)]
                {
                    &&& *c == trail.last()
                    &&& *final(c) == *cursor
                    &&& call_ensures(C::next_entry, (c,), last)
                },
        decreases (if more { 1int } else { 0int }) + usize::MAX - keys@.len(),
    {
        let ghost before = trail;
        let ghost held = keys@;
        let step = cursor.next_entry();
        proof {
            last = step;
        }
        match step {
            None => {
                more = false;
            },
            Some(Err(e)) => {
                failed = Some(e);
                more = false;
            },
            Some(Ok(entry)) => {
                keys.push(entry.0);
                proof {
                    trail = trail.push(*cursor);
                    assert forall|i: int| #![trigger trail[i]] 0 <= i < held.len() implies exists|
                        c: &mut C,
                        e: (Vec<u8>, Vec<u8>),
                    |
                        #![trigger call_ensures(C::next_entry, (c,), Some(Ok(e)))]
                        {
                            &&& *c == trail[i]
                            &&& *final(c) == trail[i + 1]
                            &&& call_ensures(C::next_entry, (c,), Some(Ok(e)))
                            &&& keys@[i] == e.0
                        } by {
                        assert(before[i] == trail[i]);
                        assert(before[i + 1] == trail[i + 1]);
                    }
                }
            },
        }
    }
    let ghost held = keys@;
    let out: Result<Vec<Vec<u8>>, C::Error> = match failed {
        Some(e) => Err(e),
        None => Ok(keys),
    };
    proof {
        assert(out is Ok ==> out->Ok_0@ == held);
        if more {
            assert(trail.len() - 1 == usize::MAX && out is Ok && trail.last() == *cursor);
        } else if out is Ok {
            assert(last == None::<Result<(Vec<u8>, Vec<u8>), C::Error>>);
            assert(exists|c: &mut C|
                #![trigger call_ensures(C::next_entry, (c,), None)]
                {
                    &&& *c == trail.last()
                    &&& *final(c) == *cursor
                    &&& call_ensures(C::next_entry, (c,), None)
                });
        } else {
            let e = out->Err_0;
            assert(last == Some(Err::<(Vec<u8>, Vec<u8>), C::Error>(e)));
            assert(exists|c: &mut C|
                #![trigger call_ensures(C::next_entry, (c,), Some(Err(e)))]
                {
                    &&& *c == trail.last()
                    &&& *final(c) == *cursor
                    &&& call_ensures(C::next_entry, (c,), Some(Err(e)))
                });
        }
        assert forall|i: int| #![trigger trail[i]] 0 <= i < trail.len() - 1 implies exists|
            c: &mut C,
            e: (Vec<u8>, Vec<u8>),
        |
            #![trigger call_ensures(C::next_entry, (c,), Some(Ok(e)))]
            {
                &&& *c == trail[i]
                &&& *final(c) == trail[i + 1]
                &&& call_ensures(C::next_entry, (c,), Some(Ok(e)))
                &&& out matches Ok(keys) ==> keys@[i] == e.0
            } by {
            assert(0 <= i < held.len());
        }
    }
    out
}

/// A table: one keyed, ordered namespace of an engine.
///
/// An engine supplies the five raw operations: `fetch`, `scan`, `len`, `store`
/// and `erase`. A transaction is handed to each call; a table holds none.
pub trait Table: Sized {
    /// What the engine says when it fails.
    type Error;

    /// A transaction that reads.
    type Rtx;

    /// A transaction that reads and writes.
    type Wtx: Deref<Target = Self::Rtx>;

    /// A running scan of this table.
    type Cursor<'t>: Cursor<Error = Self::Error> where Self: 't, Self::Rtx: 't;

    /// The value stored under the encoded key `key`, if there is one.
    fn fetch(&self, txn: &Self::Rtx, key: &[u8]) -> Result<Option<Vec<u8>>, Self::Error>;

    /// A cursor over the entries that `plan` visits, in the order of its
    /// direction.
    fn scan<'t>(&'t self, txn: &'t Self::Rtx, plan: ScanPlan) -> Result<
        Self::Cursor<'t>,
        Self::Error,
    >;

    /// The number of entries, counted by a walk over the whole table.
    fn len(&self, txn: &Self::Rtx) -> Result<usize, Self::Error>;

    /// Stores `value` under the encoded key `key`, in place of what was there.
    fn store(&self, txn: &mut Self::Wtx, key: &[u8], value: &[u8]) -> Result<(), Self::Error>;

    /// Removes the entry under the encoded key `key`, if there is one.
    fn erase(&self, txn: &mut Self::Wtx, key: &[u8]) -> Result<(), Self::Error>;

    /// Looks `key` up: asks the engine for the key as `KC` encodes it, and
    /// decodes with `DC` what the engine finds.
    fn get<'a, KC: EFormat<'a>, DC: DFormat>(&self, txn: &Self::Rtx, key: &'a KC::EItem) -> (out:
        Result<Option<DC::DItem>, Self::Error>)
        ensures
            exists|k: &[u8], raw: Result<Option<Vec<u8>>, Self::Error>|
                {
                    &&& encodes::<KC>(key, k@)
                    &&& call_ensures(Self::fetch, (self, txn, k), raw)
                    &&& typed_fetch_of::<DC, Self::Error>(raw, out)
                },
    {
        let k = KC::encode(key);
        let raw = self.fetch(txn, encoded_bytes(&k));
        typed_fetch::<DC, Self::Error>(raw)
    }

    /// A scan of the range from `start` to `end` in ascending key order: asks
    /// the engine for the forward scan of the encoded bounds, and decodes what
    /// its cursor yields.
    fn range<'a, 't, KC: EFormat<'a> + DFormat, DC: DFormat>(
        &'t self,
        txn: &'t Self::Rtx,
        start: Bound<&'a KC::EItem>,
        end: Bound<&'a KC::EItem>,
    ) -> (out: Result<Iter<Self::Cursor<'t>, KC, DC>, Self::Error>)
        ensures
            exists|
                lo: Bound<Seq<u8>>,
                hi: Bound<Seq<u8>>,
                plan: ScanPlan,
                raw: Result<Self::Cursor<'t>, Self::Error>,
            |
                {
                    &&& encodes_bound::<KC>(start, lo)
                    &&& encodes_bound::<KC>(end, hi)
                    &&& forward_of(plan, lo, hi)
                    &&& call_ensures(Self::scan, (self, txn, plan), raw)
                    &&& match raw {
                        Ok(c) => out matches Ok(it) && it.cursor() == c,
                        Err(e) => out matches Err(x) && x == e,
                    }
                },
    {
        let hi = encode_bound::<KC>(end);
        let lo = encode_bound::<KC>(start);
        let ghost lo_view = bound_view(lo);
        let ghost hi_view = bound_view(hi);
        let plan = forward_plan(lo, hi);
        let raw = self.scan(txn, plan);
        assert(forward_of(plan, lo_view, hi_view));
        match raw {
            Ok(c) => Ok(Iter::new(c)),
            Err(e) => Err(e),
        }
    }

    /// A scan of the range from `start` to `end` in descending key order: asks
    /// the engine for the backward scan of the encoded bounds, and decodes what
    /// its cursor yields. A range that no backward scan can serve is refused,
    /// and the engine is not asked.
    fn rev_range<'a, 't, KC: EFormat<'a> + DFormat, DC: DFormat>(
        &'t self,
        txn: &'t Self::Rtx,
        start: Bound<&'a KC::EItem>,
        end: Bound<&'a KC::EItem>,
    ) -> (out: Result<Iter<Self::Cursor<'t>, KC, DC>, Failure<Self::Error>>)
        ensures
            exists|lo: Bound<Seq<u8>>, hi: Bound<Seq<u8>>|
                {
                    &&& encodes_bound::<KC>(start, lo)
                    &&& encodes_bound::<KC>(end, hi)
                    &&& match reverse_refusal(lo, hi) {
                        Some(why) => out matches Err(Failure::Range(x)) && x == why,
                        None => exists|plan: ScanPlan, raw: Result<Self::Cursor<'t>, Self::Error>|
                            {
                                &&& reverse_of(plan, lo, hi)
                                &&& call_ensures(Self::scan, (self, txn, plan), raw)
                                &&& match raw {
                                    Ok(c) => out matches Ok(it) && it.cursor() == c,
                                    Err(e) => out matches Err(Failure::Engine(x)) && x == e,
                                }
                            },
                    }
                },
    {
        let lo = encode_bound::<KC>(start);
        let hi = encode_bound::<KC>(end);
        let ghost lo_view = bound_view(lo);
        let ghost hi_view = bound_view(hi);
        let plan = match reverse_plan(lo, hi) {
            Ok(plan) => plan,
            Err(why) => {
                return Err(Failure::Range(why));
            },
        };
        let raw = self.scan(txn, plan);
        assert(reverse_of(plan, lo_view, hi_view));
        match raw {
            Ok(c) => Ok(Iter::new(c)),
            Err(e) => Err(Failure::Engine(e)),
        }
    }

    /// Stores `data` under `key`, in place of what was there: hands the engine
    /// the key as `KC` encodes it and the value as `DC` encodes it.
    fn put<'a, KC: EFormat<'a>, DC: EFormat<'a>>(
        &self,
        txn: &mut Self::Wtx,
        key: &'a KC::EItem,
        data: &'a DC::EItem,
    ) -> (out: Result<(), Self::Error>)
        ensures
            exists|t: &mut Self::Wtx, k: &[u8], v: &[u8]|
                {
                    &&& encodes::<KC>(key, k@)
                    &&& encodes::<DC>(data, v@)
                    &&& *t == *old(txn)
                    &&& *final(t) == *final(txn)
                    &&& call_ensures(Self::store, (self, t, k, v), out)
                },
    {
        let k = KC::encode(key);
        let v = DC::encode(data);
        self.store(txn, encoded_bytes(&k), encoded_bytes(&v))
    }

    /// Does what `put` does.
    fn append<'a, KC: EFormat<'a>, DC: EFormat<'a>>(
        &self,
        txn: &mut Self::Wtx,
        key: &'a KC::EItem,
        data: &'a DC::EItem,
    ) -> (out: Result<(), Self::Error>)
        ensures
            exists|t: &mut Self::Wtx, k: &[u8], v: &[u8]|
                {
                    &&& encodes::<KC>(key, k@)
                    &&& encodes::<DC>(data, v@)
                    &&& *t == *old(txn)
                    &&& *final(t) == *final(txn)
                    &&& call_ensures(Self::store, (self, t, k, v), out)
                },
    {
        let k = KC::encode(key);
        let v = DC::encode(data);
        self.store(txn, encoded_bytes(&k), encoded_bytes(&v))
    }

    /// Removes the entry under `key`, if there is one: hands the engine the key
    /// as `KC` encodes it.
    fn delete<'a, KC: EFormat<'a>>(&self, txn: &mut Self::Wtx, key: &'a KC::EItem) -> (out: Result<
        (),
        Self::Error,
    >)
        ensures
            exists|t: &mut Self::Wtx, k: &[u8]|
                {
                    &&& encodes::<KC>(key, k@)
                    &&& *t == *old(txn)
                    &&& *final(t) == *final(txn)
                    &&& call_ensures(Self::erase, (self, t, k), out)
                },
    {
        let k = KC::encode(key);
        self.erase(txn, encoded_bytes(&k))
    }

    /// Erases the entries under the encoded keys in `keys`, one after another in
    /// their order, and stops at the first that the engine fails to erase.
    ///
    /// In the contract `trail` holds the states that the transaction went
    /// through while entries were erased: erasing under `keys[i]` took it from
    /// `trail[i]` to `trail[i + 1]`.
    fn erase_all(&self, txn: &mut Self::Wtx, keys: &Vec<Vec<u8>>) -> (out: Result<(), Self::Error>)
        ensures
            exists|trail: Seq<Self::Wtx>|
                #![trigger trail.len()]
                {
                    &&& 1 <= trail.len() <= keys@.len() + 1
                    &&& trail[0] == *old(txn)
                    &&& forall|i: int|
                        #![trigger trail[i]]
                        0 <= i < trail.len() - 1 ==> exists|t: &mut Self::Wtx, k: &[u8]|
                            #![trigger call_ensures(Self::erase, (self, t, k), Ok(()))]
                            {
                                &&& *t == trail[i]
                                &&& *final(t) == trail[i + 1]
                                &&& k@ == keys@[i]@
                                &&& call_ensures(Self::erase, (self, t, k), Ok(()))
                            }
                    &&& match out {
                        Ok(_) => trail.len() == keys@.len() + 1 && trail.last() == *final(txn),
                        Err(e) => trail.len() <= keys@.len() && exists|t: &mut Self::Wtx, k: &[u8]|
                            #![trigger call_ensures(Self::erase, (self, t, k), Err(e))]
                            {
                                &&& *t == trail.last()
                                &&& *final(t) == *final(txn)
                                &&& k@ == keys@[trail.len() - 1]@
                                &&& call_ensures(Self::erase, (self, t, k), Err(e))
                            },
                    }
                },
    {
        let ghost mut trail: Seq<Self::Wtx> = seq![*txn];
        let ghost mut last: Result<(), Self::Error> = Ok(());
        let mut failed: Option<Self::Error> = None;
        let mut i: usize = 0;
        while failed.is_none() && i < keys.len()
            invariant
                i <= keys@.len(),
                trail.len() == i + 1,
                trail[0] == *old(txn),
                failed is None ==> trail.last() == *txn,
                forall|j: int|
                    #![trigger trail[j]]
                    0 <= j < i ==> exists|t: &mut Self::Wtx, k: &[u8]|
                        #![trigger call_ensures(Self::erase, (self, t, k), Ok(()))]
                        {
                            &&& *t == trail[j]
                            &&& *final(t) == trail[j + 1]
                            &&& k@ == keys@[j]@
                            &&& call_ensures(Self::erase, (self, t, k), Ok(()))
                        },
                failed matches Some(e) ==> last == Err::<(), Self::Error>(e),
                failed is Some ==> i < keys@.len() && exists|t: &mut Self::Wtx, k: &[u8]|
                    #![trigger call_ensures(Self::erase, (self, t, k), last)]
                    {
                        &&& *t == trail.last()
                        &&& *final(t) == *txn
                        &&& k@ == keys@[i as int]@
                        &&& call_ensures(Self::erase, (self, t, k), last)
                    },
            decreases (if failed is None { 1int } else { 0int }) + keys@.len() - i,
        {
            let ghost before = trail;
            let done = self.erase(txn, keys[i].as_slice());
            proof {
                last = done;
            }
            match done {
                Ok(u) => {
                    assert(done == Ok::<(), Self::Error>(()));
                    proof {
                        trail = trail.push(*txn);
                        assert forall|j: int| #![trigger trail[j]] 0 <= j < i implies exists|
                            t: &mut Self::Wtx,
                            k: &[u8],
                        |
                            #![trigger call_ensures(Self::erase, (self, t, k), Ok(()))]
                            {
                                &&& *t == trail[j]
                                &&& *final(t) == trail[j + 1]
                                &&& k@ == keys@[j]@
                                &&& call_ensures(Self::erase, (self, t, k), Ok(()))
                            } by {
                            assert(before[j] == trail[j]);
                            assert(before[j + 1] == trail[j + 1]);
                        }
                        assert(trail[i as int] == before.last());
                    }
                    i = i + 1;
                },
                Err(e) => {
                    failed = Some(e);
                },
            }
        }
        let out: Result<(), Self::Error> = match failed {
            Some(e) => Err(e),
            None => Ok(()),
        };
        proof {
            assert(1 <= trail.len() <= keys@.len() + 1);
            assert(trail[0] == *old(txn));
            if out is Ok {
                assert(trail.len() == keys@.len() + 1 && trail.last() == *txn);
            }
            if out is Err {
                let e = out->Err_0;
                assert(last == Err::<(), Self::Error>(e));
                assert(trail.len() <= keys@.len());
                assert(exists|t: &mut Self::Wtx, k: &[u8]|
                    #![trigger call_ensures(Self::erase, (self, t, k), Err(e))]
                    {
                        &&& *t == trail.last()
                        &&& *final(t) == *txn
                        &&& k@ == keys@[trail.len() - 1]@
                        &&& call_ensures(Self::erase, (self, t, k), Err(e))
                    });
            }
        }
        out
    }

    /// Empties the table: walks all of it in ascending key order, gathers the
    /// keys, and erases the entry under each. Where the scan or the walk fails
    /// nothing is erased; where erasing fails, what was erased before stays
    /// erased within the transaction.
    fn clear<'t>(&'t self, txn: &'t mut Self::Wtx) -> (out: Result<(), Self::Error>)
        ensures
            exists|rtx: &Self::Rtx, plan: ScanPlan, scanned: Result<Self::Cursor<'t>, Self::Error>|
                #![trigger call_ensures(Self::scan, (self, rtx, plan), scanned)]
                {
                    &&& call_ensures(<Self::Wtx as Deref>::deref, (&*old(txn),), rtx)
                    &&& forward_of(plan, Bound::<Seq<u8>>::Unbounded, Bound::<Seq<u8>>::Unbounded)
                    &&& call_ensures(Self::scan, (self, rtx, plan), scanned)
                    &&& match scanned {
                        Err(e) => out == Err::<(), Self::Error>(e) && *final(txn) == *old(txn),
                        Ok(found) => exists|
                            c: &mut Self::Cursor<'t>,
                            drained: Result<Vec<Vec<u8>>, Self::Error>,
                        |
                            #![trigger call_ensures(drain_keys::<Self::Cursor<'t>>, (c,), drained)]
                            {
                                &&& *c == found
                                &&& call_ensures(drain_keys::<Self::Cursor<'t>>, (c,), drained)
                                &&& match drained {
                                    Err(e) => out == Err::<(), Self::Error>(e) && *final(txn)
                                        == *old(txn),
                                    Ok(keys) => exists|t: &mut Self::Wtx|
                                        #![trigger call_ensures(Self::erase_all, (self, t, &keys), out)]
                                        {
                                            &&& *t == *old(txn)
                                            &&& *final(t) == *final(txn)
                                            &&& call_ensures(Self::erase_all, (self, t, &keys), out)
                                        },
                                }
                            },
                    }
                },
    {
        let gathered = {
            let reader: &Self::Wtx = txn;
            let rtx: &Self::Rtx = <Self::Wtx as Deref>::deref(reader);
            let plan = forward_plan(Bound::Unbounded, Bound::Unbounded);
            match self.scan(rtx, plan) {
                Ok(found) => {
                    let mut cursor = found;
                    drain_keys(&mut cursor)
                },
                Err(e) => Err(e),
            }
        };
        match gathered {
            Ok(keys) => self.erase_all(txn, &keys),
            Err(e) => Err(e),
        }
    }
}

/// A storage engine: it hands out tables by name, and transactions.
pub trait Store: Sized {
    /// What the engine says when it fails.
    type Error;

    /// A transaction that reads.
    type Rtx: Transaction<Error = Self::Error>;

    /// A transaction that reads and writes: whatever reads through an `Rtx`
    /// reads through it too.
    type Wtx: Transaction<Error = Self::Error> + Deref<Target = Self::Rtx>;

    /// A table of this engine.
    type Table: Table<Error = Self::Error, Rtx = Self::Rtx, Wtx = Self::Wtx>;

    /// How a table is set up.
    type Config: Default;

    /// The table `name`, made if it is not there yet. To ask again for a table
    /// that is there is no failure.
    fn table(&self, name: &str, cfg: &Self::Config) -> Result<Self::Table, Self::Error>;

    /// The table `name`, with `KC` for its keys and `DC` for its values.
    fn typed<KC, DC>(&self, name: &str, cfg: &Self::Config) -> (out: Result<
        Typed<Self::Table, KC, DC>,
        Self::Error,
    >)
        ensures
            exists|raw: Result<Self::Table, Self::Error>|
                #![trigger call_ensures(Self::table, (self, name, cfg), raw)]
                {
                    &&& call_ensures(Self::table, (self, name, cfg), raw)
                    &&& match raw {
                        Ok(t) => out matches Ok(typed) && typed.raw() == t,
                        Err(e) => out matches Err(x) && x == e,
                    }
                },
    {
        match self.table(name, cfg) {
            Ok(t) => Ok(Typed::new(t)),
            Err(e) => Err(e),
        }
    }

    /// Opens a transaction that reads.
    fn rtx(&self) -> Result<Self::Rtx, Self::Error>;

    /// Opens a transaction that reads and writes.
    fn wtx(&self) -> Result<Self::Wtx, Self::Error>;

    /// Opens a reading transaction, runs `fun` in it, and ends the transaction
    /// where `fun` succeeded. The result is that of `fun`, unless the engine
    /// fails to open or to end the transaction.
    fn with_rtx<R, F: FnOnce(&Self::Rtx) -> Result<R, Self::Error>>(&self, fun: F) -> (out: Result<
        R,
        Self::Error,
    >)
        requires
            forall|t: Self::Rtx|
                call_ensures(Self::rtx, (self,), Ok(t)) ==> #[trigger] call_requires(fun, (&t,)),
        ensures
            exists|opened: Result<Self::Rtx, Self::Error>|
                #![trigger call_ensures(Self::rtx, (self,), opened)]
                {
                    &&& call_ensures(Self::rtx, (self,), opened)
                    &&& match opened {
                        Err(e) => out matches Err(x) && x == e,
                        Ok(t) => exists|ran: Result<R, Self::Error>|
                            #![trigger call_ensures(fun, (&t,), ran)]
                            {
                                &&& call_ensures(fun, (&t,), ran)
                                &&& match ran {
                                    Err(e) => out matches Err(x) && x == e,
                                    Ok(v) => exists|done: Result<(), Self::Error>|
                                        #![trigger call_ensures(<Self::Rtx as Transaction>::commit, (t,), done)]
                                        {
                                            &&& call_ensures(
                                                <Self::Rtx as Transaction>::commit,
                                                (t,),
                                                done,
                                            )
                                            &&& match done {
                                                Ok(_) => out matches Ok(x) && x == v,
                                                Err(e) => out matches Err(x) && x == e,
                                            }
                                        },
                                }
                            },
                    }
                },
    {
        let rtx = match self.rtx() {
            Ok(t) => t,
            Err(e) => {
                return Err(e);
            },
        };
        let v = match fun(&rtx) {
            Ok(v) => v,
            Err(e) => {
                return Err(e);
            },
        };
        match rtx.commit() {
            Ok(_) => Ok(v),
            Err(e) => Err(e),
        }
    }

    /// Opens a writing transaction, runs `fun` in it, and commits where `fun`
    /// succeeded. Where `fun` fails nothing is committed: the transaction is
    /// dropped, and what `fun` wrote with it. The result is that of `fun`,
    /// unless the engine fails to open or to commit the transaction.
    fn with_wtx<R, F: FnOnce(&mut Self::Wtx) -> Result<R, Self::Error>>(&self, fun: F) -> (out:
        Result<R, Self::Error>)
        requires
            forall|t: &mut Self::Wtx|
                call_ensures(Self::wtx, (self,), Ok(*t)) ==> #[trigger] call_requires(fun, (t,)),
        ensures
            exists|opened: Result<Self::Wtx, Self::Error>|
                #![trigger call_ensures(Self::wtx, (self,), opened)]
                {
                    &&& call_ensures(Self::wtx, (self,), opened)
                    &&& match opened {
                        Err(e) => out matches Err(x) && x == e,
                        Ok(t) => exists|m: &mut Self::Wtx, ran: Result<R, Self::Error>|
                            #![trigger call_ensures(fun, (m,), ran)]
                            {
                                &&& *m == t
                                &&& call_ensures(fun, (m,), ran)
                                &&& match ran {
                                    Err(e) => out matches Err(x) && x == e,
                                    Ok(v) => exists|done: Result<(), Self::Error>|
                                        #![trigger call_ensures(<Self::Wtx as Transaction>::commit, (*final(m),), done)]
                                        {
                                            &&& call_ensures(
                                                <Self::Wtx as Transaction>::commit,
                                                (*final(m),),
                                                done,
                                            )
                                            &&& match done {
                                                Ok(_) => out matches Ok(x) && x == v,
                                                Err(e) => out matches Err(x) && x == e,
                                            }
                                        },
                                }
                            },
                    }
                },
    {
        let mut wtx = match self.wtx() {
            Ok(t) => t,
            Err(e) => {
                return Err(e);
            },
        };
        let v = match fun(&mut wtx) {
            Ok(v) => v,
            Err(e) => {
                return Err(e);
            },
        };
        match wtx.commit() {
            Ok(_) => Ok(v),
            Err(e) => Err(e),
        }
    }
}

/// Runs `fun` in a reading transaction of `s`: what `Store::with_rtx` does.
pub fn readtx<S: Store, R, F: FnOnce(&S::Rtx) -> Result<R, S::Error>>(s: &S, fun: F) -> (out: Result<
    R,
    S::Error,
>)
    requires
        forall|t: S::Rtx| call_ensures(S::rtx, (s,), Ok(t)) ==> #[trigger] call_requires(fun, (&t,)),
    ensures
        exists|opened: Result<S::Rtx, S::Error>|
            #![trigger call_ensures(S::rtx, (s,), opened)]
            {
                &&& call_ensures(S::rtx, (s,), opened)
                &&& match opened {
                    Err(e) => out matches Err(x) && x == e,
                    Ok(t) => exists|ran: Result<R, S::Error>|
                        #![trigger call_ensures(fun, (&t,), ran)]
                        {
                            &&& call_ensures(fun, (&t,), ran)
                            &&& match ran {
                                Err(e) => out matches Err(x) && x == e,
                                Ok(v) => exists|done: Result<(), S::Error>|
                                    #![trigger call_ensures(<S::Rtx as Transaction>::commit, (t,), done)]
                                    {
                                        &&& call_ensures(
                                            <S::Rtx as Transaction>::commit,
                                            (t,),
                                            done,
                                        )
                                        &&& match done {
                                            Ok(_) => out matches Ok(x) && x == v,
                                            Err(e) => out matches Err(x) && x == e,
                                        }
                                    },
                            }
                        },
                }
            },
{
    s.with_rtx(fun)
}

/// Runs `fun` in a writing transaction of `s`: what `Store::with_wtx` does.
pub fn writetx<S: Store, R, F: FnOnce(&mut S::Wtx) -> Result<R, S::Error>>(s: &S, fun: F) -> (out:
    Result<R, S::Error>)
    requires
        forall|t: &mut S::Wtx|
            call_ensures(S::wtx, (s,), Ok(*t)) ==> #[trigger] call_requires(fun, (t,)),
    ensures
        exists|opened: Result<S::Wtx, S::Error>|
            #![trigger call_ensures(S::wtx, (s,), opened)]
            {
                &&& call_ensures(S::wtx, (s,), opened)
                &&& match opened {
                    Err(e) => out matches Err(x) && x == e,
                    Ok(t) => exists|m: &mut S::Wtx, ran: Result<R, S::Error>|
                        #![trigger call_ensures(fun, (m,), ran)]
                        {
                            &&& *m == t
                            &&& call_ensures(fun, (m,), ran)
                            &&& match ran {
                                Err(e) => out matches Err(x) && x == e,
                                Ok(v) => exists|done: Result<(), S::Error>|
                                    #![trigger call_ensures(<S::Wtx as Transaction>::commit, (*final(m),), done)]
                                    {
                                        &&& call_ensures(
                                            <S::Wtx as Transaction>::commit,
                                            (*final(m),),
                                            done,
                                        )
                                        &&& match done {
                                            Ok(_) => out matches Ok(x) && x == v,
                                            Err(e) => out matches Err(x) && x == e,
                                        }
                                    },
                            }
                        },
                }
            },
{
    s.with_wtx(fun)
}

} // verus!
