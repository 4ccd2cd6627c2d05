//! What a codec is: a way to bytes, a way back, or both.

use std::borrow::Cow;
use vstd::prelude::*;

verus! {

/// A way from bytes to a value. `None` says that the bytes hold no value of this
/// shape; it is no failure.
pub trait DFormat {
    /// What comes out.
    type DItem;

    fn decode(data: &[u8]) -> Option<Self::DItem>;
}

/// A way from a value to bytes, borrowed from the value where its bytes lie in
/// memory as they are stored.
pub trait EFormat<'e>: 'e {
    /// What goes in.
    type EItem: ?Sized;

    fn encode(value: &'e Self::EItem) -> Cow<'e, [u8]>;
}

/// Both ways: `E` goes in, `D` comes out.
pub trait Format<'e, D, E = D>: EFormat<'e, EItem = E> + DFormat<DItem = D> {

}

/// `F` may encode `value` as `bytes`.
pub open spec fn encodes<'e, F: EFormat<'e>>(value: &'e F::EItem, bytes: Seq<u8>) -> bool {
    exists|out: Cow<'e, [u8]>| call_ensures(F::encode, (value,), out) && out@ == bytes
}

/// `F` may decode `bytes` as `item`.
pub open spec fn decodes<F: DFormat>(bytes: Seq<u8>, item: Option<F::DItem>) -> bool {
    exists|data: &[u8]| data@ == bytes && call_ensures(F::decode, (data,), item)
}

/// The bytes of an encoded value.
pub fn encoded_bytes<'a, 'b>(out: &'b Cow<'a, [u8]>) -> (bytes: &'b [u8])
    ensures
        bytes@ == out@,
{
    match out {
        Cow::Borrowed(b) => b,
        Cow::Owned(v) => v.as_slice(),
    }
}

/// Encodes `value` with `F` into a buffer of its own.
pub fn encode_owned<'e, F: EFormat<'e>>(value: &'e F::EItem) -> (bytes: Vec<u8>)
    ensures
        encodes::<F>(value, bytes@),
{
    let out = F::encode(value);
    let bytes = match out {
        Cow::Borrowed(b) => slice_to_vec(b),
        Cow::Owned(v) => v,
    };
    assert(out@ == bytes@);
    bytes
}

/// A copy of `data`.
pub fn slice_to_vec(data: &[u8]) -> (out: Vec<u8>)
    ensures
        out@ == data@,
{
    let mut out: Vec<u8> = Vec::new();
    let mut i: usize = 0;
    while i < data.len()
        invariant
            i <= data@.len(),
            out@ == data@.subrange(0, i as int),
        decreases data@.len() - i,
    {
        out.push(data[i]);
        assert(out@ =~= data@.subrange(0, i + 1));
        i = i + 1;
    }
    assert(out@ =~= data@);
    out
}

} // verus!
