use typed_kv::db::rocks::{settle_creation, CreateFailure};
use typed_kv::format::{DFormat, EFormat};
use typed_kv::types::{
    ByteSlice, Empty, FixedSlice, Ignore, OwnedSlice, OwnedType, Split, Str, UnalignedSlice,
    UnalignedType,
};

/// Copies of `bytes` at two addresses one byte apart: at most one of them suits
/// a type that wants an even address.
fn placements(bytes: &[u8]) -> (Vec<u8>, Vec<u8>) {
    let mut at_zero = vec![0u8; bytes.len() + 8];
    let mut at_one = vec![0u8; bytes.len() + 8];
    at_zero[..bytes.len()].copy_from_slice(bytes);
    at_one[1..bytes.len() + 1].copy_from_slice(bytes);
    (at_zero, at_one)
}

#[test]
fn str_round_trip() {
    let bytes = Str::encode("héllo wörld");
    assert_eq!(&bytes[..], "héllo wörld".as_bytes());
    assert_eq!(Str::decode(&bytes), Some("héllo wörld".to_string()));
    assert_eq!(Str::decode(b""), Some(String::new()));
}

#[test]
fn str_rejects_bad_utf8() {
    assert_eq!(Str::decode(&[0xFF, 0xFE]), None);
    assert_eq!(Str::decode(&[b'a', 0xC3]), None);
}

#[test]
fn owned_u64_is_little_endian() {
    let bytes = OwnedType::<u64>::encode(&0x0102030405060708u64);
    assert_eq!(&bytes[..], &[8, 7, 6, 5, 4, 3, 2, 1]);
    let bytes = OwnedType::<u32>::encode(&0xA1B2C3D4u32);
    assert_eq!(&bytes[..], &[0xD4, 0xC3, 0xB2, 0xA1]);
    let bytes = OwnedType::<u8>::encode(&7u8);
    assert_eq!(&bytes[..], &[7]);
}

#[test]
fn owned_round_trip_aligned_and_misaligned() {
    for value in [0u64, 1, 0x0102030405060708, u64::MAX] {
        let bytes = OwnedType::<u64>::encode(&value).to_vec();
        let (a, b) = placements(&bytes);
        assert_eq!(OwnedType::<u64>::decode(&a[..8]), Some(value));
        assert_eq!(OwnedType::<u64>::decode(&b[1..9]), Some(value));
    }
    for value in [0u32, 77, 0xA1B2C3D4, u32::MAX] {
        let bytes = OwnedType::<u32>::encode(&value).to_vec();
        let (a, b) = placements(&bytes);
        assert_eq!(OwnedType::<u32>::decode(&a[..4]), Some(value));
        assert_eq!(OwnedType::<u32>::decode(&b[1..5]), Some(value));
    }
}

#[test]
fn owned_rejects_other_lengths() {
    assert_eq!(OwnedType::<u64>::decode(&[1, 2, 3]), None);
    assert_eq!(OwnedType::<u64>::decode(&[0; 9]), None);
    assert_eq!(OwnedType::<u64>::decode(&[]), None);
    assert_eq!(OwnedType::<u32>::decode(&[0; 8]), None);
    assert_eq!(OwnedType::<u8>::decode(&[]), None);
    assert_eq!(OwnedType::<u8>::decode(&[1, 2]), None);
}

#[test]
fn owned_slice_round_trip_aligned_and_misaligned() {
    let values: Vec<u32> = vec![1, 2, 0xA1B2C3D4, u32::MAX, 0];
    let bytes = OwnedSlice::<u32>::encode(&values).to_vec();
    assert_eq!(bytes.len(), 20);
    assert_eq!(&bytes[..8], &[1, 0, 0, 0, 2, 0, 0, 0]);
    let (a, b) = placements(&bytes);
    assert_eq!(OwnedSlice::<u32>::decode(&a[..20]), Some(values.clone()));
    assert_eq!(OwnedSlice::<u32>::decode(&b[1..21]), Some(values));
    assert_eq!(OwnedSlice::<u64>::decode(&[]), Some(vec![]));
}

#[test]
fn owned_slice_rejects_a_ragged_length() {
    assert_eq!(OwnedSlice::<u32>::decode(&[0; 6]), None);
    assert_eq!(OwnedSlice::<u64>::decode(&[0; 15]), None);
}

#[test]
fn unaligned_round_trip() {
    let bytes = UnalignedType::<u8>::encode(&200u8);
    assert_eq!(&bytes[..], &[200]);
    assert_eq!(UnalignedType::<u8>::decode(&bytes), Some(200));
    assert_eq!(UnalignedType::<u8>::decode(&[]), None);
    assert_eq!(UnalignedType::<u8>::decode(&[1, 2]), None);
    let raw: Vec<u8> = vec![9, 8, 7, 0, 255];
    let bytes = UnalignedSlice::<u8>::encode(&raw);
    assert_eq!(&bytes[..], &raw[..]);
    assert_eq!(ByteSlice::decode(&bytes), Some(raw));
    assert_eq!(ByteSlice::decode(&[]), Some(vec![]));
}

#[test]
fn fixed_slice_round_trip_aligned_and_misaligned() {
    let values: [u32; 3] = [5, 0x01020304, u32::MAX];
    let bytes = FixedSlice::<u32, 3>::encode(&values).to_vec();
    assert_eq!(bytes, vec![5, 0, 0, 0, 4, 3, 2, 1, 255, 255, 255, 255]);
    let (a, b) = placements(&bytes);
    assert_eq!(FixedSlice::<u32, 3>::decode(&a[..12]), Some(values));
    assert_eq!(FixedSlice::<u32, 3>::decode(&b[1..13]), Some(values));
    assert_eq!(FixedSlice::<u8, 0>::decode(&[]), Some([]));
}

#[test]
fn fixed_slice_rejects_other_lengths() {
    assert_eq!(FixedSlice::<u32, 3>::decode(&[0; 8]), None);
    assert_eq!(FixedSlice::<u32, 3>::decode(&[0; 16]), None);
    assert_eq!(FixedSlice::<u32, 3>::decode(&[0; 11]), None);
    assert_eq!(FixedSlice::<u8, 0>::decode(&[1]), None);
}

#[test]
fn split_encodes_one_way_and_decodes_another() {
    let bytes = Split::<Str, ByteSlice>::encode("ab");
    assert_eq!(&bytes[..], b"ab");
    assert_eq!(Split::<Str, ByteSlice>::decode(&bytes), Some(vec![b'a', b'b']));
    assert_eq!(Split::<Str, OwnedType<u32>>::decode(b"ab"), None);
    assert_eq!(Split::<ByteSlice, Str>::decode(&[0xFF]), None);
}

#[test]
fn empty_wants_no_bytes() {
    let bytes = Empty::encode(&());
    assert!(bytes.is_empty());
    assert_eq!(Empty::decode(&[]), Some(()));
    assert_eq!(Empty::decode(&[0]), None);
}

#[test]
fn ignore_takes_anything() {
    assert_eq!(Ignore::decode(&[]), Some(()));
    assert_eq!(Ignore::decode(&[1, 2, 3]), Some(()));
}

fn failure(invalid_argument: bool, message: &str) -> Result<(), CreateFailure<u32>> {
    Err(CreateFailure { error: 17, invalid_argument, message: message.to_string() })
}

#[test]
fn creating_a_table_that_exists_is_no_failure() {
    assert_eq!(settle_creation::<u32>(Ok(())), Ok(()));
    let said = "Invalid argument: Column family already exists: people";
    assert_eq!(settle_creation(failure(true, said)), Ok(()));
    assert_eq!(settle_creation(failure(true, "Column family already exists")), Ok(()));
}

#[test]
fn other_creation_failures_stand() {
    let said = "Invalid argument: Column family already exists: people";
    assert_eq!(settle_creation(failure(false, said)), Err(17));
    assert_eq!(settle_creation(failure(true, "Invalid argument: name too long")), Err(17));
    assert_eq!(settle_creation(failure(true, "column family already exists")), Err(17));
    assert_eq!(settle_creation(failure(true, "")), Err(17));
    assert_eq!(settle_creation(failure(false, "IO error: disk full")), Err(17));
}
