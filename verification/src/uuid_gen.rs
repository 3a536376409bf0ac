//! The calls this library makes into the `uuid` crate: fresh identifiers
//! from the clock or from randomness, and their text form.
use vstd::prelude::*;

use crate::bytes::be_bytes;

verus! {

#[verifier::external_type_specification]
#[verifier::external_body]
pub struct ExUuidContextV7(uuid::ContextV7);

/// The version nibble and the variant bits of an RFC 9562 identifier:
/// byte 6 carries the version in its high nibble, byte 8 starts with `10`.
pub open spec fn has_version(bytes: Seq<u8>, version: u8) -> bool {
    &&& bytes.len() == 16
    &&& bytes[6] >> 4u8 == version
    &&& bytes[8] >> 6u8 == 2
}

/// The lower-case hexadecimal digit of `n` (below 16).
pub open spec fn hex_digit(n: int) -> char {
    seq!['0', '1', '2', '3', '4', '5', '6', '7', '8', '9', 'a', 'b', 'c', 'd', 'e', 'f'][n]
}

/// Each byte of `s` as two lower-case hexadecimal digits, the high one
/// first.
pub open spec fn hex_bytes(s: Seq<u8>) -> Seq<char>
    decreases s.len(),
{
    if s.len() == 0 {
        Seq::empty()
    } else {
        seq![hex_digit(s[0] as int / 16), hex_digit(s[0] as int % 16)] + hex_bytes(s.drop_first())
    }
}

/// The hyphenated lower-case text form that `uuid::Uuid`'s `Display`
/// writes for the identifier with these sixteen bytes: the bytes in
/// hexadecimal in groups of 4, 2, 2, 2 and 6 bytes, joined by '-'.
pub open spec fn uuid_text(bytes: Seq<u8>) -> Seq<char> {
    hex_bytes(bytes.subrange(0, 4)) + seq!['-'] + hex_bytes(bytes.subrange(4, 6)) + seq!['-']
        + hex_bytes(bytes.subrange(6, 8)) + seq!['-'] + hex_bytes(bytes.subrange(8, 10)) + seq![
        '-',
    ] + hex_bytes(bytes.subrange(10, 16))
}

/// Calls `uuid::Uuid::now_v7`. The crate documents the result as a version 7
/// identifier; `encode_unix_timestamp_millis` in its source sets the version
/// nibble to 7 and the variant bits to `10`. The rest depends on the clock
/// and on randomness and is not stated.
#[verifier::external_body]
pub(crate) fn uuid_now_v7() -> (r: [u8; 16])
    ensures
        has_version(r@, 7),
{
    *uuid::Uuid::now_v7().as_bytes()
}

/// The milliseconds since the Unix epoch that `uuid::Uuid::new_v7` takes
/// from `secs` seconds and `nanos` nanoseconds: `secs * 1000 + nanos /
/// 1_000_000`, each step saturating at `u64::MAX`.
pub open spec fn unix_millis(secs: u64, nanos: u32) -> nat {
    let a: nat = if secs * 1000 > u64::MAX { u64::MAX as nat } else { (secs * 1000) as nat };
    let b: nat = a + (nanos / 1_000_000) as nat;
    if b > u64::MAX {
        u64::MAX as nat
    } else {
        b
    }
}

/// Calls `uuid::Uuid::new_v7` on `uuid::Timestamp::from_unix_time(secs,
/// nanos, 0, 0)`, a timestamp that uses no context. `new_v7` computes the
/// milliseconds as `unix_millis` states, and `encode_unix_timestamp_millis`
/// writes their low 48 bits into bytes 0 to 5, most significant first, the
/// version nibble 7 and the variant bits `10`. The random fill is not
/// stated.
#[verifier::external_body]
pub(crate) fn uuid_new_v7(secs: u64, nanos: u32) -> (r: [u8; 16])
    ensures
        has_version(r@, 7),
        r@.subrange(0, 6) == be_bytes(unix_millis(secs, nanos), 6),
{
    *uuid::Uuid::new_v7(uuid::Timestamp::from_unix_time(secs, nanos, 0, 0)).as_bytes()
}

/// Calls `uuid::Uuid::new_v7` on `uuid::Timestamp::now(context)`: the time
/// and counter come from the clock and the context, which keeps the
/// identifiers it makes in order. Version 7 with the variant bits set; the
/// rest is not stated.
#[verifier::external_body]
pub(crate) fn uuid_new_v7_in(context: &uuid::ContextV7) -> (r: [u8; 16])
    ensures
        has_version(r@, 7),
{
    *uuid::Uuid::new_v7(uuid::Timestamp::now(context)).as_bytes()
}

/// Calls `uuid::Uuid::new_v4`. Its source masks random bits so that the
/// version nibble is 4 and the variant bits are `10`; nothing else is stated.
#[verifier::external_body]
pub(crate) fn uuid_new_v4() -> (r: [u8; 16])
    ensures
        has_version(r@, 4),
{
    *uuid::Uuid::new_v4().as_bytes()
}

/// Calls `uuid::ContextV7::new`: a fresh context for version 7
/// identifiers. Nothing is stated of it.
#[verifier::external_body]
pub(crate) fn context_v7_new() -> uuid::ContextV7 {
    uuid::ContextV7::new()
}

/// Calls `to_string` on the `uuid::Uuid` with these bytes. Its `Display`
/// writes the hyphenated lower-case form (`format_hyphenated` in the
/// crate's `fmt.rs`), which `uuid_text` states.
#[verifier::external_body]
pub(crate) fn uuid_to_string(bytes: &[u8; 16]) -> (r: String)
    ensures
        r@ == uuid_text(bytes@),
{
    uuid::Uuid::from_bytes(*bytes).to_string()
}

} // verus!
