//! The record-id codec.
//!
//! The store's integer record ids are shown to the user as short
//! alphabetic strings, produced by the `sqids` crate with a fixed
//! configuration: the 26 lower-case letters as alphabet, a minimum
//! length of 5, and the crate's default blocklist.  For that fixed
//! configuration both directions are functions of their argument
//! alone, named below by `sqid_encoding` and `sqid_numbers`; sqids
//! guarantees that an encoded id decodes back to itself.
//!
//! An id is reinterpreted bit-for-bit as unsigned before encoding, so
//! negative ids (which the store never hands out, but the type allows)
//! still round-trip.

use vstd::prelude::*;

verus! {

/// What `Sqids::encode` returns for the single number `id` under this
/// codec's fixed configuration: nothing when the blocklist forces
/// every candidate string out.
pub uninterp spec fn sqid_encoding(id: u64) -> Option<Seq<char>>;

/// What `Sqids::decode` returns for the string `s` under this codec's
/// fixed configuration.
pub uninterp spec fn sqid_numbers(s: Seq<char>) -> Seq<u64>;

/// An `i32` reinterpreted bit-for-bit as unsigned, then widened.
pub open spec fn id_to_u64(record_id: i32) -> u64 {
    if record_id >= 0 {
        record_id as u64
    } else {
        (record_id + 0x1_0000_0000) as u64
    }
}

/// The inverse of [`id_to_u64`] on values that fit 32 bits.
pub open spec fn u64_to_id(n: u64) -> i32 {
    if n <= i32::MAX {
        n as i32
    } else {
        (n - 0x1_0000_0000) as i32
    }
}

/// Relies on sqids' `SqidsBuilder::build` and `Sqids::encode`.  The
/// builder cannot fail for this fixed alphabet (26 unique ASCII
/// letters).  Encoding a slice of one number is deterministic for a
/// fixed configuration, returns a string no shorter than the
/// configured minimum length 5, fails only when the blocklist forces
/// every candidate out, and — sqids' round-trip guarantee — produces a
/// string that decodes back to exactly the encoded number.
#[verifier::external_body]
fn encode_id(id: u64) -> (r: Option<String>)
    ensures
        r is Some <==> sqid_encoding(id) is Some,
        r matches Some(s) ==> (sqid_encoding(id) matches Some(cs) && s@ == cs && s@.len() >= 5
            && sqid_numbers(cs) == seq![id]),
{
    let codec = sqids::SqidsBuilder::new()
        .alphabet(('a'..='z').collect())
        .min_length(5)
        .build()
        .unwrap();
    codec.encode(&[id]).ok()
}

/// Relies on sqids' `SqidsBuilder::build` and `Sqids::decode`.  The
/// builder cannot fail for this fixed alphabet; decoding never fails
/// and is deterministic for a fixed configuration (an invalid string
/// decodes to an empty vector).
#[verifier::external_body]
fn decode_id(s: &str) -> (r: Vec<u64>)
    ensures
        r@ == sqid_numbers(s@),
{
    let codec = sqids::SqidsBuilder::new()
        .alphabet(('a'..='z').collect())
        .min_length(5)
        .build()
        .unwrap();
    codec.decode(s)
}

/// Encode a store record id as its user-facing string: at least five
/// lower-case letters.  Fails only when the blocklist forces every
/// candidate string out.
pub fn sqid(record_id: i32) -> (r: Option<String>)
    ensures
        r is Some <==> sqid_encoding(id_to_u64(record_id)) is Some,
        r matches Some(s) ==> (sqid_encoding(id_to_u64(record_id)) matches Some(cs) && s@ == cs
            && s@.len() >= 5 && sqid_numbers(s@) == seq![id_to_u64(record_id)]),
{
    let as_u32: u32 = if record_id >= 0 {
        record_id as u32
    } else {
        ((record_id as i64) + 0x1_0000_0000) as u32
    };
    encode_id(as_u32 as u64)
}

/// Decode a user-facing record-id string back to the store's integer
/// id.  Fails exactly when the string does not decode to a single
/// number that fits 32 bits — in particular on any string the codec
/// did not produce.
pub fn desqid(sqid_str: &str) -> (r: Option<i32>)
    ensures
        r is Some <==> sqid_numbers(sqid_str@).len() == 1 && sqid_numbers(sqid_str@)[0]
            <= u32::MAX,
        r matches Some(v) ==> v == u64_to_id(sqid_numbers(sqid_str@)[0]),
{
    let nums = decode_id(sqid_str);
    if nums.len() != 1 {
        return None;
    }
    let n = nums[0];
    if n > 0xFFFF_FFFF {
        return None;
    }
    if n <= 0x7FFF_FFFF {
        Some(n as i32)
    } else {
        Some(((n as i64) - 0x1_0000_0000) as i32)
    }
}

/// The codec round-trips: whenever an id can be encoded at all,
/// decoding the encoding returns the original id, for every id.
pub fn sqid_roundtrip(record_id: i32) -> (r: Option<i32>)
    ensures
        r is Some <==> sqid_encoding(id_to_u64(record_id)) is Some,
        r matches Some(v) ==> v == record_id,
{
    match sqid(record_id) {
        None => None,
        Some(s) => {
            let decoded = desqid(s.as_str());
            proof {
                assert(sqid_numbers(s@)[0] == id_to_u64(record_id));
            }
            decoded
        },
    }
}

} // verus!
