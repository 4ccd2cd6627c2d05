//! Values with a fixed byte layout.
//!
//! A value of such a type is stored as its byte image: a fixed number of bytes,
//! with no header. Integers wider than a byte are stored in little-endian byte
//! order, which is how a little-endian host holds them in memory.

use vstd::bytes::{spec_u32_from_le_bytes, spec_u32_to_le_bytes};
use vstd::bytes::{spec_u64_from_le_bytes, spec_u64_to_le_bytes};
use vstd::bytes::{lemma_auto_spec_u32_to_from_le_bytes, lemma_auto_spec_u64_to_from_le_bytes};
use vstd::prelude::*;

verus! {

/// A plain, copyable type whose values are stored as a fixed number of bytes, and
/// of which every such run of bytes holds a value: see `read`.
pub trait FixedLayout: Copy {
    /// The number of bytes of one value.
    spec fn width() -> nat;

    /// The bytes of a value.
    spec fn image(self) -> Seq<u8>;

    /// The value that `bytes` hold.
    spec fn from_image(bytes: Seq<u8>) -> Self;

    /// A value has `width()` bytes, at least one, and is the value that its bytes
    /// hold.
    proof fn image_laws(v: Self)
        ensures
            Self::width() > 0,
            v.image().len() == Self::width(),
            Self::from_image(v.image()) == v,
    ;

    /// The number of bytes of one value.
    fn size() -> (n: usize)
        ensures
            n == Self::width(),
    ;

    /// The bytes of `self`.
    fn to_image(&self) -> (bytes: Vec<u8>)
        ensures
            bytes@ == self.image(),
    ;

    /// Every address suits the layout, so that a value can be read in place
    /// wherever its bytes lie. Where this is false, some addresses may not suit.
    spec fn suits_every_address() -> bool;

    /// The value in `bytes`, read in place. This asks of `bytes` the right
    /// length and an address that suits the layout. Where every address suits,
    /// the length alone decides, and `view` finds a value wherever `read` finds
    /// one; where not, it may find none there. What it finds is what `read`
    /// finds.
    fn view(bytes: &[u8]) -> (r: Option<Self>)
        ensures
            r matches Some(v) ==> bytes@.len() == Self::width() && v == Self::from_image(bytes@),
            Self::suits_every_address() && bytes@.len() == Self::width() ==> r is Some,
    ;

    /// The value in `bytes`, copied out byte by byte: there is one where `bytes`
    /// has the right length, wherever it lies in memory.
    fn read(bytes: &[u8]) -> (r: Option<Self>)
        ensures
            r == (if bytes@.len() == Self::width() {
                Some(Self::from_image(bytes@))
            } else {
                None
            }),
    ;
}

/// A fixed layout that suits every address, so that a value can be read in place
/// wherever its bytes lie.
pub trait Unaligned: FixedLayout {
    /// Every address suits the layout.
    proof fn anywhere()
        ensures
            Self::suits_every_address(),
    ;
}

/// The value in `bytes`: read in place where the bytes lie at an address that
/// suits the type, and copied out byte by byte where they do not. A buffer of
/// another length holds no value.
pub fn load<T: FixedLayout>(bytes: &[u8]) -> (r: Option<T>)
    ensures
        r == (if bytes@.len() == T::width() {
            Some(T::from_image(bytes@))
        } else {
            None
        }),
{
    match T::view(bytes) {
        Some(v) => Some(v),
        None => T::read(bytes),
    }
}

impl FixedLayout for u8 {
    open spec fn width() -> nat {
        1
    }

    open spec fn image(self) -> Seq<u8> {
        seq![self]
    }

    open spec fn from_image(bytes: Seq<u8>) -> u8 {
        bytes[0]
    }

    open spec fn suits_every_address() -> bool {
        true
    }

    proof fn image_laws(v: u8) {
    }

    fn size() -> (n: usize) {
        1
    }

    fn to_image(&self) -> (bytes: Vec<u8>) {
        let mut bytes: Vec<u8> = Vec::new();
        bytes.push(*self);
        assert(bytes@ =~= seq![*self]);
        bytes
    }

    fn view(bytes: &[u8]) -> (r: Option<u8>) {
        if bytes.len() == 1 {
            Some(bytes[0])
        } else {
            None
        }
    }

    fn read(bytes: &[u8]) -> (r: Option<u8>) {
        if bytes.len() == 1 {
            Some(bytes[0])
        } else {
            None
        }
    }
}

impl Unaligned for u8 {
    proof fn anywhere() {
    }
}

/// `zerocopy::AsBytes::as_bytes`, on a `u32` put in little-endian byte order: the
/// four bytes of the number, the lowest first.
#[verifier::external_body]
fn u32_image(value: u32) -> (bytes: Vec<u8>)
    ensures
        bytes@ == spec_u32_to_le_bytes(value),
{
    zerocopy::AsBytes::as_bytes(&value.to_le()).to_vec()
}

/// `zerocopy::LayoutVerified::new`, for a `u32` in little-endian byte order: it
/// gives a view only of four bytes (and only at an address that suits a `u32`),
/// and the view holds the number of which they are the bytes, the lowest first.
#[verifier::external_body]
fn u32_view(bytes: &[u8]) -> (r: Option<u32>)
    ensures
        r matches Some(v) ==> bytes@.len() == 4 && v == spec_u32_from_le_bytes(bytes@),
{
    match zerocopy::LayoutVerified::<&[u8], u32>::new(bytes) {
        Some(v) => Some(u32::from_le(*v)),
        None => None,
    }
}

/// `zerocopy::FromBytes::read_from`, for a `u32` in little-endian byte order: of
/// four bytes it gives the number of which they are the bytes, the lowest first,
/// and of a buffer of another length nothing.
#[verifier::external_body]
fn u32_read(bytes: &[u8]) -> (r: Option<u32>)
    ensures
        r == (if bytes@.len() == 4 {
            Some(spec_u32_from_le_bytes(bytes@))
        } else {
            None
        }),
{
    match <u32 as zerocopy::FromBytes>::read_from(bytes) {
        Some(v) => Some(u32::from_le(v)),
        None => None,
    }
}

impl FixedLayout for u32 {
    open spec fn width() -> nat {
        4
    }

    open spec fn image(self) -> Seq<u8> {
        spec_u32_to_le_bytes(self)
    }

    open spec fn from_image(bytes: Seq<u8>) -> u32 {
        spec_u32_from_le_bytes(bytes)
    }

    open spec fn suits_every_address() -> bool {
        false
    }

    proof fn image_laws(v: u32) {
        lemma_auto_spec_u32_to_from_le_bytes();
    }

    fn size() -> (n: usize) {
        4
    }

    fn to_image(&self) -> (bytes: Vec<u8>) {
        u32_image(*self)
    }

    fn view(bytes: &[u8]) -> (r: Option<u32>) {
        u32_view(bytes)
    }

    fn read(bytes: &[u8]) -> (r: Option<u32>) {
        u32_read(bytes)
    }
}

/// `zerocopy::AsBytes::as_bytes`, on a `u64` put in little-endian byte order: the
/// eight bytes of the number, the lowest first.
#[verifier::external_body]
fn u64_image(value: u64) -> (bytes: Vec<u8>)
    ensures
        bytes@ == spec_u64_to_le_bytes(value),
{
    zerocopy::AsBytes::as_bytes(&value.to_le()).to_vec()
}

/// `zerocopy::LayoutVerified::new`, for a `u64` in little-endian byte order: it
/// gives a view only of eight bytes (and only at an address that suits a `u64`),
/// and the view holds the number of which they are the bytes, the lowest first.
#[verifier::external_body]
fn u64_view(bytes: &[u8]) -> (r: Option<u64>)
    ensures
        r matches Some(v) ==> bytes@.len() == 8 && v == spec_u64_from_le_bytes(bytes@),
{
    match zerocopy::LayoutVerified::<&[u8], u64>::new(bytes) {
        Some(v) => Some(u64::from_le(*v)),
        None => None,
    }
}

/// `zerocopy::FromBytes::read_from`, for a `u64` in little-endian byte order: of
/// eight bytes it gives the number of which they are the bytes, the lowest
/// first, and of a buffer of another length nothing.
#[verifier::external_body]
fn u64_read(bytes: &[u8]) -> (r: Option<u64>)
    ensures
        r == (if bytes@.len() == 8 {
            Some(spec_u64_from_le_bytes(bytes@))
        } else {
            None
        }),
{
    match <u64 as zerocopy::FromBytes>::read_from(bytes) {
        Some(v) => Some(u64::from_le(v)),
        None => None,
    }
}

impl FixedLayout for u64 {
    open spec fn width() -> nat {
        8
    }

    open spec fn image(self) -> Seq<u8> {
        spec_u64_to_le_bytes(self)
    }

    open spec fn from_image(bytes: Seq<u8>) -> u64 {
        spec_u64_from_le_bytes(bytes)
    }

    open spec fn suits_every_address() -> bool {
        false
    }

    proof fn image_laws(v: u64) {
        lemma_auto_spec_u64_to_from_le_bytes();
    }

    fn size() -> (n: usize) {
        8
    }

    fn to_image(&self) -> (bytes: Vec<u8>) {
        u64_image(*self)
    }

    fn view(bytes: &[u8]) -> (r: Option<u64>) {
        u64_view(bytes)
    }

    fn read(bytes: &[u8]) -> (r: Option<u64>) {
        u64_read(bytes)
    }
}

} // verus!
