//! The codecs that come with the library.

use crate::format::{DFormat, EFormat};
use crate::layout::{load, FixedLayout, Unaligned};
use std::borrow::Cow;
use std::marker::PhantomData;
use vstd::prelude::*;
use vstd::string::StringSliceAdditionalSpecFns;
use vstd::utf8::{decode_utf8, encode_utf8, valid_utf8};
use vstd::utf8::{encode_utf8_decode_utf8, encode_utf8_valid_utf8};

verus! {

/// Raw bytes: what an untyped key or value is.
pub type ByteSlice = UnalignedSlice<u8>;

/// The text that `bytes` hold, where they are valid UTF-8.
pub open spec fn text_of(bytes: Seq<u8>) -> Option<Seq<char>> {
    if valid_utf8(bytes) {
        Some(decode_utf8(bytes))
    } else {
        None
    }
}

/// The value of a fixed layout that `bytes` hold, where they have its width.
pub open spec fn value_of<T: FixedLayout>(bytes: Seq<u8>) -> Option<T> {
    if bytes.len() == T::width() {
        Some(T::from_image(bytes))
    } else {
        None
    }
}

/// `std::str::from_utf8`: the text whose bytes are `bytes`, where they are valid
/// UTF-8, and nothing where they are not.
#[verifier::external_body]
fn utf8_text(bytes: &[u8]) -> (r: Option<&str>)
    ensures
        r is Some <==> valid_utf8(bytes@),
        r matches Some(s) ==> s.spec_bytes() == bytes@,
{
    std::str::from_utf8(bytes).ok()
}

/// Text, stored as its UTF-8 bytes.
pub struct Str;

impl<'e> EFormat<'e> for Str {
    type EItem = str;

    fn encode(item: &'e str) -> (out: Cow<'e, [u8]>)
        ensures
            out@ == encode_utf8(item@),
    {
        Cow::Borrowed(item.as_bytes())
    }
}

impl DFormat for Str {
    type DItem = String;

    fn decode(bytes: &[u8]) -> (r: Option<String>)
        ensures
            match r {
                Some(s) => text_of(bytes@) == Some(s@),
                None => text_of(bytes@) is None,
            },
    {
        match utf8_text(bytes) {
            Some(s) => {
                proof {
                    encode_utf8_decode_utf8(s@);
                }
                Some(s.to_owned())
            },
            None => None,
        }
    }
}

/// Text comes back from its bytes as it went in.
pub proof fn str_round_trip(text: Seq<char>)
    ensures
        text_of(encode_utf8(text)) == Some(text),
{
    encode_utf8_valid_utf8(text);
    encode_utf8_decode_utf8(text);
}

/// One value of a fixed layout, stored as its bytes.
pub struct OwnedType<T>(PhantomData<T>);

impl<'a, T: FixedLayout + 'a> EFormat<'a> for OwnedType<T> {
    type EItem = T;

    fn encode(item: &'a T) -> (out: Cow<'a, [u8]>)
        ensures
            out@ == item.image(),
    {
        Cow::Owned(item.to_image())
    }
}

impl<T: FixedLayout + 'static> DFormat for OwnedType<T> {
    type DItem = T;

    fn decode(bytes: &[u8]) -> (r: Option<T>)
        ensures
            r == value_of::<T>(bytes@),
    {
        load::<T>(bytes)
    }
}

/// One value of a fixed layout that suits every address, stored as its bytes.
pub struct UnalignedType<T>(PhantomData<T>);

impl<'a, T: Unaligned + 'a> EFormat<'a> for UnalignedType<T> {
    type EItem = T;

    fn encode(item: &'a T) -> (out: Cow<'a, [u8]>)
        ensures
            out@ == item.image(),
    {
        Cow::Owned(item.to_image())
    }
}

impl<T: Unaligned + 'static> DFormat for UnalignedType<T> {
    type DItem = T;

    fn decode(bytes: &[u8]) -> (r: Option<T>)
        ensures
            r == value_of::<T>(bytes@),
    {
        T::read(bytes)
    }
}

/// A value of a fixed layout comes back from its bytes as it went in, wherever
/// the bytes lie in memory.
pub proof fn value_round_trip<T: FixedLayout>(v: T)
    ensures
        value_of::<T>(v.image()) == Some(v),
{
    T::image_laws(v);
}

/// The bytes of a run of values: the bytes of the first, then those of the
/// second, and so on.
pub open spec fn images<T: FixedLayout>(items: Seq<T>) -> Seq<u8>
    decreases items.len(),
{
    if items.len() == 0 {
        Seq::empty()
    } else {
        images(items.drop_last()) + items.last().image()
    }
}

/// The `i`-th run of `width` bytes in `bytes`.
pub open spec fn chunk(bytes: Seq<u8>, width: nat, i: int) -> Seq<u8> {
    bytes.subrange(i * width, (i + 1) * width)
}

/// The values that `bytes` hold one after another, as many as fit.
pub open spec fn values<T: FixedLayout>(bytes: Seq<u8>) -> Seq<T> {
    Seq::new(
        (bytes.len() / T::width()) as nat,
        |i: int| T::from_image(chunk(bytes, T::width(), i)),
    )
}

/// The run of values that `bytes` hold, where their length is a multiple of the
/// width of one value.
pub open spec fn values_of<T: FixedLayout>(bytes: Seq<u8>) -> Option<Seq<T>> {
    if bytes.len() % T::width() == 0 {
        Some(values::<T>(bytes))
    } else {
        None
    }
}

/// The bytes of a run of values are as many as the values times the width of
/// one.
pub proof fn images_len<T: FixedLayout>(items: Seq<T>)
    ensures
        images(items).len() == items.len() * T::width(),
    decreases items.len(),
{
    if items.len() > 0 {
        images_len(items.drop_last());
        T::image_laws(items.last());
        assert((items.len() - 1) * T::width() + T::width() == items.len() * T::width())
            by (nonlinear_arith);
    } else {
        assert(0 * T::width() == 0) by (nonlinear_arith);
    }
}

/// In the bytes of a run of values, the `i`-th run of bytes is the `i`-th value.
pub proof fn images_chunk<T: FixedLayout>(items: Seq<T>, i: int)
    requires
        0 <= i < items.len(),
    ensures
        chunk(images(items), T::width(), i) == items[i].image(),
    decreases items.len(),
{
    let w = T::width();
    let front = items.drop_last();
    images_len(front);
    T::image_laws(items.last());
    assert((i + 1) * w == i * w + w) by (nonlinear_arith);
    if i == items.len() - 1 {
        assert(chunk(images(items), w, i) =~= items[i].image());
    } else {
        images_chunk(front, i);
        assert(0 <= i * w && (i + 1) * w <= front.len() * w) by (nonlinear_arith)
            requires
                0 <= i,
                i + 1 <= front.len(),
                w >= 0,
        ;
        assert(chunk(images(items), w, i) =~= chunk(images(front), w, i));
    }
}

/// A run of values of a fixed layout comes back from its bytes as it went in,
/// wherever the bytes lie in memory.
pub proof fn values_round_trip<T: FixedLayout>(items: Seq<T>)
    ensures
        values_of::<T>(images(items)) == Some(items),
{
    let w = T::width();
    let bytes = images(items);
    images_len(items);
    T::image_laws(T::from_image(bytes));
    if w > 0 {
        assert((items.len() * w) % w == 0 && (items.len() * w) / w == items.len())
            by (nonlinear_arith)
            requires
                w > 0,
                items.len() >= 0,
        ;
        assert forall|i: int| 0 <= i < items.len() implies #[trigger] values::<T>(bytes)[i]
            == items[i] by {
            images_chunk(items, i);
            T::image_laws(items[i]);
        }
    }
    assert(values::<T>(bytes) =~= items);
}

/// The bytes of `items`, one value after another.
fn encode_run<T: FixedLayout>(items: &[T]) -> (out: Vec<u8>)
    ensures
        out@ == images(items@),
{
    let mut out: Vec<u8> = Vec::new();
    let mut i: usize = 0;
    while i < items.len()
        invariant
            i <= items@.len(),
            out@ == images(items@.subrange(0, i as int)),
        decreases items@.len() - i,
    {
        let mut one = items[i].to_image();
        out.append(&mut one);
        proof {
            let next = items@.subrange(0, i + 1);
            assert(next.drop_last() =~= items@.subrange(0, i as int));
            assert(next.last() == items@[i as int]);
        }
        i = i + 1;
    }
    assert(items@.subrange(0, i as int) =~= items@);
    out
}

/// The values in `bytes`, one after another, where the length of `bytes` is a
/// multiple of the width of one. With `in_place` a value is read in place where
/// its bytes lie at an address that suits the type, and copied out where not;
/// without, each value is copied out.
fn decode_run<T: FixedLayout>(bytes: &[u8], in_place: bool) -> (r: Option<Vec<T>>)
    ensures
        match r {
            Some(v) => values_of::<T>(bytes@) == Some(v@),
            None => values_of::<T>(bytes@) is None,
        },
{
    let w: usize = T::size();
    let len: usize = bytes.len();
    proof {
        T::image_laws(T::from_image(bytes@));
    }
    if len % w != 0 {
        return None;
    }
    let n: usize = len / w;
    assert(n * w == len) by (nonlinear_arith)
        requires
            w > 0,
            len % w == 0,
            n == len / w,
    ;
    let mut out: Vec<T> = Vec::new();
    let mut i: usize = 0;
    while i < n
        invariant
            w == T::width(),
            w > 0,
            len == bytes@.len(),
            n * w == len,
            n == bytes@.len() / (w as nat),
            i <= n,
            out@.len() == i,
            forall|j: int| 0 <= j < i ==> out@[j] == #[trigger] values::<T>(bytes@)[j],
        decreases n - i,
    {
        assert(i * w + w <= len && i * w >= 0 && (i + 1) * w == i * w + w) by (nonlinear_arith)
            requires
                i < n,
                n * w == len,
                w > 0,
        ;
        let lo: usize = i * w;
        let hi: usize = lo + w;
        let part: &[u8] = &bytes[lo..hi];
        assert(part@ == chunk(bytes@, T::width(), i as int));
        let item = if in_place {
            load::<T>(part)
        } else {
            T::read(part)
        };
        match item {
            Some(v) => {
                out.push(v);
            },
            None => {
                return None;
            },
        }
        i = i + 1;
    }
    assert(out@ =~= values::<T>(bytes@));
    Some(out)
}

/// A run of values of a fixed layout, stored as their bytes one after another.
pub struct OwnedSlice<T>(PhantomData<T>);

impl<'a, T: FixedLayout + 'a> EFormat<'a> for OwnedSlice<T> {
    type EItem = [T];

    fn encode(item: &'a [T]) -> (out: Cow<'a, [u8]>)
        ensures
            out@ == images(item@),
    {
        Cow::Owned(encode_run(item))
    }
}

impl<T: FixedLayout + 'static> DFormat for OwnedSlice<T> {
    type DItem = Vec<T>;

    fn decode(bytes: &[u8]) -> (r: Option<Vec<T>>)
        ensures
            match r {
                Some(v) => values_of::<T>(bytes@) == Some(v@),
                None => values_of::<T>(bytes@) is None,
            },
    {
        decode_run::<T>(bytes, true)
    }
}

/// A run of values of a fixed layout that suits every address, stored as their
/// bytes one after another.
pub struct UnalignedSlice<T>(PhantomData<T>);

impl<'a, T: Unaligned + 'a> EFormat<'a> for UnalignedSlice<T> {
    type EItem = [T];

    fn encode(item: &'a [T]) -> (out: Cow<'a, [u8]>)
        ensures
            out@ == images(item@),
    {
        Cow::Owned(encode_run(item))
    }
}

impl<T: Unaligned + 'static> DFormat for UnalignedSlice<T> {
    type DItem = Vec<T>;

    fn decode(bytes: &[u8]) -> (r: Option<Vec<T>>)
        ensures
            match r {
                Some(v) => values_of::<T>(bytes@) == Some(v@),
                None => values_of::<T>(bytes@) is None,
            },
    {
        decode_run::<T>(bytes, false)
    }
}

/// An array of `N` values of a fixed layout, stored as their bytes one after
/// another.
pub struct FixedSlice<T, const N: usize>(PhantomData<T>);

impl<'a, T: FixedLayout + 'a, const N: usize> EFormat<'a> for FixedSlice<T, N> {
    type EItem = [T; N];

    fn encode(item: &'a [T; N]) -> (out: Cow<'a, [u8]>)
        ensures
            out@ == images(item@),
    {
        Cow::Owned(encode_run(item.as_slice()))
    }
}

impl<T: FixedLayout + Default + 'static, const N: usize> DFormat for FixedSlice<T, N> {
    type DItem = [T; N];

    fn decode(bytes: &[u8]) -> (r: Option<[T; N]>)
        ensures
            match r {
                Some(a) => bytes@.len() == N * T::width() && a@ == values::<T>(bytes@),
                None => bytes@.len() != N * T::width(),
            },
    {
        proof {
            T::image_laws(T::from_image(bytes@));
            let w = T::width();
            let len = bytes@.len();
            assert(len == N * w <==> (len % w == 0 && len / w == N)) by (nonlinear_arith)
                requires
                    w > 0,
                    len >= 0,
                    N >= 0,
            ;
        }
        let items = match decode_run::<T>(bytes, true) {
            Some(v) => v,
            None => {
                return None;
            },
        };
        if items.len() != N {
            return None;
        }
        let mut out: [T; N] = vstd::array::array_fill_for_copy_types(T::default());
        let mut i: usize = 0;
        while i < N
            invariant
                i <= N,
                items@.len() == N,
                out@.len() == N,
                forall|j: int| 0 <= j < i ==> out@[j] == items@[j],
            decreases N - i,
        {
            out[i] = items[i];
            i = i + 1;
        }
        assert(out@ =~= items@);
        Some(out)
    }
}

/// An array of values of a fixed layout comes back from its bytes as it went in,
/// wherever the bytes lie in memory.
pub proof fn fixed_round_trip<T: FixedLayout, const N: usize>(items: [T; N])
    ensures
        images(items@).len() == N * T::width(),
        values::<T>(images(items@)) == items@,
{
    images_len(items@);
    values_round_trip(items@);
}

/// Encodes as `E` does and decodes as `D` does: for a table that is written in
/// one shape and read in another.
pub struct Split<E, D>(PhantomData<(E, D)>);

impl<'e, E: EFormat<'e> + 'static, D: 'static> EFormat<'e> for Split<E, D> {
    type EItem = E::EItem;

    fn encode(value: &'e E::EItem) -> (out: Cow<'e, [u8]>)
        ensures
            call_ensures(E::encode, (value,), out),
    {
        E::encode(value)
    }
}

impl<E: 'static, D: DFormat + 'static> DFormat for Split<E, D> {
    type DItem = D::DItem;

    fn decode(data: &[u8]) -> (r: Option<D::DItem>)
        ensures
            call_ensures(D::decode, (data,), r),
    {
        D::decode(data)
    }
}

/// Nothing, stored as no bytes.
pub struct Empty;

impl<'e> EFormat<'e> for Empty {
    type EItem = ();

    fn encode(_item: &'e ()) -> (out: Cow<'e, [u8]>)
        ensures
            out@ == Seq::<u8>::empty(),
    {
        let none: Vec<u8> = Vec::new();
        Cow::Owned(none)
    }
}

impl DFormat for Empty {
    type DItem = ();

    fn decode(bytes: &[u8]) -> (r: Option<()>)
        ensures
            r is Some <==> bytes@.len() == 0,
    {
        if bytes.len() == 0 {
            Some(())
        } else {
            None
        }
    }
}

/// Whatever the bytes are, they decode to nothing: for scans that want the keys
/// only.
pub struct Ignore;

impl DFormat for Ignore {
    type DItem = ();

    fn decode(_bytes: &[u8]) -> (r: Option<()>)
        ensures
            r is Some,
    {
        Some(())
    }
}

} // verus!
