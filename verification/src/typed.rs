//! A table with its codecs bound to it.

use crate::engine::{drain_keys, encodes_bound, typed_fetch_of, Failure, Iter, Table};
use crate::format::{encodes, DFormat, EFormat};
use crate::scan::{forward_of, reverse_of, reverse_refusal, ScanPlan};
use std::ops::Deref;
use std::marker::PhantomData;
use std::ops::Bound;
use vstd::prelude::*;

verus! {

/// A table together with the codec `KC` of its keys and the codec `DC` of its
/// values. It holds the table and nothing else: each operation is the table's
/// own, with the two codecs filled in.
pub struct Typed<T, KC, DC> {
    table: T,
    marker: PhantomData<(KC, DC)>,
}

impl<T: Table, KC, DC> Typed<T, KC, DC> {
    /// The table underneath.
    pub closed spec fn raw(&self) -> T {
        self.table
    }

    /// Binds `KC` and `DC` to `table`.
    pub fn new(table: T) -> (out: Self)
        ensures
            out.raw() == table,
    {
        Typed { table, marker: PhantomData }
    }

    /// The table's `get`, with `KC` and `DC`.
    pub fn get<'a>(&self, txn: &T::Rtx, key: &'a KC::EItem) -> (out: Result<
        Option<DC::DItem>,
        T::Error,
    >) where KC: EFormat<'a>, DC: DFormat
        ensures
            exists|k: &[u8], raw: Result<Option<Vec<u8>>, T::Error>|
                {
                    &&& encodes::<KC>(key, k@)
                    &&& call_ensures(T::fetch, (&self.raw(), txn, k), raw)
                    &&& typed_fetch_of::<DC, T::Error>(raw, out)
                },
    {
        let out = self.table.get::<KC, DC>(txn, key);
        assert(self.raw() == self.table);
        out
    }

    /// The table's `range`, with `KC` and `DC`.
    pub fn range<'a, 't>(
        &'t self,
        txn: &'t T::Rtx,
        start: Bound<&'a KC::EItem>,
        end: Bound<&'a KC::EItem>,
    ) -> (out: Result<Iter<T::Cursor<'t>, KC, DC>, T::Error>) where
        KC: EFormat<'a> + DFormat,
        DC: DFormat,

        ensures
            exists|
                lo: Bound<Seq<u8>>,
                hi: Bound<Seq<u8>>,
                plan: ScanPlan,
                raw: Result<T::Cursor<'t>, T::Error>,
            |
                {
                    &&& encodes_bound::<KC>(start, lo)
                    &&& encodes_bound::<KC>(end, hi)
                    &&& forward_of(plan, lo, hi)
                    &&& call_ensures(T::scan, (&self.raw(), txn, plan), raw)
                    &&& match raw {
                        Ok(c) => out matches Ok(it) && it.cursor() == c,
                        Err(e) => out matches Err(x) && x == e,
                    }
                },
    {
        let out = self.table.range::<KC, DC>(txn, start, end);
        assert(self.raw() == self.table);
        out
    }

    /// The table's `rev_range`, with `KC` and `DC`.
    pub fn rev_range<'a, 't>(
        &'t self,
        txn: &'t T::Rtx,
        start: Bound<&'a KC::EItem>,
        end: Bound<&'a KC::EItem>,
    ) -> (out: Result<Iter<T::Cursor<'t>, KC, DC>, Failure<T::Error>>) where
        KC: EFormat<'a> + DFormat,
        DC: DFormat,

        ensures
            exists|lo: Bound<Seq<u8>>, hi: Bound<Seq<u8>>|
                {
                    &&& encodes_bound::<KC>(start, lo)
                    &&& encodes_bound::<KC>(end, hi)
                    &&& match reverse_refusal(lo, hi) {
                        Some(why) => out matches Err(Failure::Range(x)) && x == why,
                        None => exists|plan: ScanPlan, raw: Result<T::Cursor<'t>, T::Error>|
                            {
                                &&& reverse_of(plan, lo, hi)
                                &&& call_ensures(T::scan, (&self.raw(), txn, plan), raw)
                                &&& match raw {
                                    Ok(c) => out matches Ok(it) && it.cursor() == c,
                                    Err(e) => out matches Err(Failure::Engine(x)) && x == e,
                                }
                            },
                    }
                },
    {
        let out = self.table.rev_range::<KC, DC>(txn, start, end);
        assert(self.raw() == self.table);
        out
    }

    /// The table's `len`.
    pub fn len(&self, txn: &T::Rtx) -> (out: Result<usize, T::Error>)
        ensures
            call_ensures(T::len, (&self.raw(), txn), out),
    {
        self.table.len(txn)
    }

    /// The table's `put`, with `KC` and `DC`.
    pub fn put<'a>(&self, txn: &mut T::Wtx, key: &'a KC::EItem, data: &'a DC::EItem) -> (out: Result<
        (),
        T::Error,
    >) where KC: EFormat<'a>, DC: EFormat<'a>
        ensures
            exists|t: &mut T::Wtx, k: &[u8], v: &[u8]|
                {
                    &&& encodes::<KC>(key, k@)
                    &&& encodes::<DC>(data, v@)
                    &&& *t == *old(txn)
                    &&& *final(t) == *final(txn)
                    &&& call_ensures(T::store, (&self.raw(), t, k, v), out)
                },
    {
        let out = self.table.put::<KC, DC>(txn, key, data);
        assert(self.raw() == self.table);
        out
    }

    /// The table's `append`, with `KC` and `DC`.
    pub fn append<'a>(&self, txn: &mut T::Wtx, key: &'a KC::EItem, data: &'a DC::EItem) -> (out:
        Result<(), T::Error>) where KC: EFormat<'a>, DC: EFormat<'a>
        ensures
            exists|t: &mut T::Wtx, k: &[u8], v: &[u8]|
                {
                    &&& encodes::<KC>(key, k@)
                    &&& encodes::<DC>(data, v@)
                    &&& *t == *old(txn)
                    &&& *final(t) == *final(txn)
                    &&& call_ensures(T::store, (&self.raw(), t, k, v), out)
                },
    {
        let out = self.table.append::<KC, DC>(txn, key, data);
        assert(self.raw() == self.table);
        out
    }

    /// The table's `delete`, with `KC`.
    pub fn delete<'a>(&self, txn: &mut T::Wtx, key: &'a KC::EItem) -> (out: Result<
        (),
        T::Error,
    >) where KC: EFormat<'a>
        ensures
            exists|t: &mut T::Wtx, k: &[u8]|
                {
                    &&& encodes::<KC>(key, k@)
                    &&& *t == *old(txn)
                    &&& *final(t) == *final(txn)
                    &&& call_ensures(T::erase, (&self.raw(), t, k), out)
                },
    {
        let out = self.table.delete::<KC>(txn, key);
        assert(self.raw() == self.table);
        out
    }

    /// The table's `clear`.
    pub fn clear<'t>(&'t self, txn: &'t mut T::Wtx) -> (out: Result<(), T::Error>)
        ensures
            exists|rtx: &T::Rtx, plan: ScanPlan, scanned: Result<T::Cursor<'t>, T::Error>|
                #![trigger call_ensures(T::scan, (&self.raw(), rtx, plan), scanned)]
                {
                    &&& call_ensures(<T::Wtx as Deref>::deref, (&*old(txn),), rtx)
                    &&& forward_of(plan, Bound::<Seq<u8>>::Unbounded, Bound::<Seq<u8>>::Unbounded)
                    &&& call_ensures(T::scan, (&self.raw(), rtx, plan), scanned)
                    &&& match scanned {
                        Err(e) => out == Err::<(), T::Error>(e) && *final(txn) == *old(txn),
                        Ok(found) => exists|
                            c: &mut T::Cursor<'t>,
                            drained: Result<Vec<Vec<u8>>, T::Error>,
                        |
                            #![trigger call_ensures(drain_keys::<T::Cursor<'t>>, (c,), drained)]
                            {
                                &&& *c == found
                                &&& call_ensures(drain_keys::<T::Cursor<'t>>, (c,), drained)
                                &&& match drained {
                                    Err(e) => out == Err::<(), T::Error>(e) && *final(txn)
                                        == *old(txn),
                                    Ok(keys) => exists|t: &mut T::Wtx|
                                        #![trigger call_ensures(T::erase_all, (&self.raw(), t, &keys), out)]
                                        {
                                            &&& *t == *old(txn)
                                            &&& *final(t) == *final(txn)
                                            &&& call_ensures(T::erase_all, (&self.raw(), t, &keys), out)
                                        },
                                }
                            },
                    }
                },
    {
        let out = self.table.clear(txn);
        assert(self.raw() == self.table);
        out
    }

    /// The same table with other codecs. Nothing that is stored is touched.
    pub fn remap_types<KC2, DC2>(self) -> (out: Typed<T, KC2, DC2>)
        ensures
            out.raw() == self.raw(),
    {
        Typed { table: self.table, marker: PhantomData }
    }

    /// The same table with another codec for its keys.
    pub fn remap_key_type<KC2>(self) -> (out: Typed<T, KC2, DC>)
        ensures
            out.raw() == self.raw(),
    {
        self.remap_types::<KC2, DC>()
    }

    /// The same table with another codec for its values.
    pub fn remap_data_type<DC2>(self) -> (out: Typed<T, KC, DC2>)
        ensures
            out.raw() == self.raw(),
    {
        self.remap_types::<KC, DC2>()
    }
}

impl<T: Table + Clone, KC, DC> Clone for Typed<T, KC, DC> {
    fn clone(&self) -> (out: Self)
        ensures
            cloned(self.raw(), out.raw()),
    {
        Typed { table: self.table.clone(), marker: PhantomData }
    }
}

} // verus!
