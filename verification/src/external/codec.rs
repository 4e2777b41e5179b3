//! Binary canonical serialization, from the `bcs` crate.
use crate::bytes::le_bytes;
use vstd::prelude::*;

verus! {

/// The longest sequence that has an encoding.
pub const MAX_SEQUENCE_LENGTH: usize = 0x7fff_ffff;

/// A length in base 128, least significant digit first; every digit but the last
/// has its high bit set.
pub open spec fn uleb128(value: nat) -> Seq<u8>
    decreases value,
{
    if value < 128 {
        seq![value as u8]
    } else {
        seq![(128 + value % 128) as u8] + uleb128(value / 128)
    }
}

/// The encoding of a byte sequence: its length, then the bytes.
pub open spec fn bytes_encoding(bytes: Seq<u8>) -> Seq<u8> {
    uleb128(bytes.len()) + bytes
}

/// The encodings of byte sequences one after the other.
pub open spec fn joined_encodings(items: Seq<Seq<u8>>) -> Seq<u8>
    decreases items.len(),
{
    if items.len() == 0 {
        Seq::empty()
    } else {
        joined_encodings(items.drop_last()) + bytes_encoding(items.last())
    }
}

/// The encoding of a sequence of byte sequences: their number, then each of them.
pub open spec fn byte_lists_encoding(items: Seq<Seq<u8>>) -> Seq<u8> {
    uleb128(items.len()) + joined_encodings(items)
}

/// The encoding of a sequence of 32-byte arrays: their number, then their bytes.
pub open spec fn arrays_encoding(items: Seq<[u8; 32]>) -> Seq<u8> {
    uleb128(items.len()) + items.map_values(|item: [u8; 32]| item@).flatten()
}

/// The byte sequences that a list of vectors holds.
pub open spec fn byte_lists(items: Seq<Vec<u8>>) -> Seq<Seq<u8>> {
    items.map_values(|item: Vec<u8>| item@)
}

/// Calls `bcs::to_bytes` on a `u8`: the byte itself.
#[verifier::external_body]
pub(crate) fn encode_u8(value: u8) -> (bytes: Vec<u8>)
    ensures
        bytes@ == le_bytes(value as nat, 1),
{
    bcs::to_bytes(&value).unwrap()
}

/// Calls `bcs::to_bytes` on a `u16`: two bytes, least significant first.
#[verifier::external_body]
pub(crate) fn encode_u16(value: u16) -> (bytes: Vec<u8>)
    ensures
        bytes@ == le_bytes(value as nat, 2),
{
    bcs::to_bytes(&value).unwrap()
}

/// Calls `bcs::to_bytes` on a `u32`: four bytes, least significant first.
#[verifier::external_body]
pub(crate) fn encode_u32(value: u32) -> (bytes: Vec<u8>)
    ensures
        bytes@ == le_bytes(value as nat, 4),
{
    bcs::to_bytes(&value).unwrap()
}

/// Calls `bcs::to_bytes` on a `u64`: eight bytes, least significant first.
#[verifier::external_body]
pub(crate) fn encode_u64(value: u64) -> (bytes: Vec<u8>)
    ensures
        bytes@ == le_bytes(value as nat, 8),
{
    bcs::to_bytes(&value).unwrap()
}

/// Calls `bcs::to_bytes` on a `u128`: sixteen bytes, least significant first.
#[verifier::external_body]
pub(crate) fn encode_u128(value: u128) -> (bytes: Vec<u8>)
    ensures
        bytes@ == le_bytes(value as nat, 16),
{
    bcs::to_bytes(&value).unwrap()
}

/// Calls `bcs::to_bytes` on a `bool`: one byte, one for true and zero for false.
#[verifier::external_body]
pub(crate) fn encode_bool(value: bool) -> (bytes: Vec<u8>)
    ensures
        bytes@ == seq![if value { 1u8 } else { 0u8 }],
{
    bcs::to_bytes(&value).unwrap()
}

/// Calls `bcs::to_bytes` on an array of 32 bytes: the bytes, with no length.
#[verifier::external_body]
pub(crate) fn encode_array(value: &[u8; 32]) -> (bytes: Vec<u8>)
    ensures
        bytes@ == value@,
{
    bcs::to_bytes(value).unwrap()
}

/// Calls `bcs::to_bytes` on a vector of 32-byte arrays: their number, then their
/// bytes. A longer vector than [`MAX_SEQUENCE_LENGTH`] has no encoding.
#[verifier::external_body]
pub(crate) fn encode_arrays(value: &Vec<[u8; 32]>) -> (bytes: Vec<u8>)
    requires
        value@.len() <= MAX_SEQUENCE_LENGTH,
    ensures
        bytes@ == arrays_encoding(value@),
{
    bcs::to_bytes(value).unwrap()
}

/// Calls `bcs::to_bytes` on a vector of bytes: its length, then the bytes. A
/// longer vector than [`MAX_SEQUENCE_LENGTH`] has no encoding.
#[verifier::external_body]
pub(crate) fn encode_bytes(value: &Vec<u8>) -> (bytes: Vec<u8>)
    requires
        value@.len() <= MAX_SEQUENCE_LENGTH,
    ensures
        bytes@ == bytes_encoding(value@),
{
    bcs::to_bytes(value).unwrap()
}

/// Calls `bcs::to_bytes` on a vector of byte vectors: their number, then each of
/// them with its length. No vector may be longer than [`MAX_SEQUENCE_LENGTH`].
#[verifier::external_body]
pub(crate) fn encode_byte_lists(value: &Vec<Vec<u8>>) -> (bytes: Vec<u8>)
    requires
        value@.len() <= MAX_SEQUENCE_LENGTH,
        forall|i: int| 0 <= i < value@.len() ==> (#[trigger] value@[i])@.len() <= MAX_SEQUENCE_LENGTH,
    ensures
        bytes@ == byte_lists_encoding(byte_lists(value@)),
{
    bcs::to_bytes(value).unwrap()
}

} // verus!
