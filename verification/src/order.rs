//! The order of keys: the order of the bytes the store keeps them under,
//! so that iterating a table visits keys in their order.
use std::cmp::Ordering;
use vstd::prelude::*;
use vstd::std_specs::cmp::{PartialEqSpec, PartialOrdSpec};

use crate::bytes::{
    be_value, be_bytes, compare_bytes, lemma_be_bytes_len, lemma_be_bytes_order, lemma_lex_common_prefix,
    lemma_lex_extend, lex_lt, pow256,
};
use crate::key::{combine_hash, DbKey, PrefixedKey, UuidKey};
use crate::uuid_gen::unix_millis;

verus! {

/// How `a` sorts against `b` in byte order.
pub open spec fn byte_order(a: Seq<u8>, b: Seq<u8>) -> Ordering {
    if lex_lt(a, b) {
        Ordering::Less
    } else if a == b {
        Ordering::Equal
    } else {
        Ordering::Greater
    }
}

/// The ordering of a comparison result -1, 0 or 1.
fn ordering_of(c: i8) -> (r: Ordering)
    requires
        -1 <= c <= 1,
    ensures
        c == -1 ==> r == Ordering::Less,
        c == 0 ==> r == Ordering::Equal,
        c == 1 ==> r == Ordering::Greater,
{
    if c < 0 {
        Ordering::Less
    } else if c == 0 {
        Ordering::Equal
    } else {
        Ordering::Greater
    }
}

/// How the byte strings `a` and `b` sort.
fn order_bytes(a: &Vec<u8>, b: &Vec<u8>) -> (r: Ordering)
    ensures
        r == byte_order(a@, b@),
{
    ordering_of(compare_bytes(a.as_slice(), b.as_slice()))
}

impl<T> PartialOrd for UuidKey<T> {
    fn partial_cmp(&self, other: &Self) -> (r: Option<Ordering>) {
        let a = self.key_bytes();
        let b = other.key_bytes();
        Some(order_bytes(&a, &b))
    }
}

impl<T> vstd::std_specs::cmp::PartialOrdSpecImpl for UuidKey<T> {
    open spec fn obeys_partial_cmp_spec() -> bool {
        true
    }

    open spec fn partial_cmp_spec(&self, other: &Self) -> Option<Ordering> {
        Some(byte_order(self@, other@))
    }
}

impl<Prefix, T> PartialOrd for PrefixedKey<Prefix, T> {
    fn partial_cmp(&self, other: &Self) -> (r: Option<Ordering>) {
        let a = self.key_bytes();
        let b = other.key_bytes();
        Some(order_bytes(&a, &b))
    }
}

impl<Prefix, T> vstd::std_specs::cmp::PartialOrdSpecImpl for PrefixedKey<Prefix, T> {
    open spec fn obeys_partial_cmp_spec() -> bool {
        true
    }

    open spec fn partial_cmp_spec(&self, other: &Self) -> Option<Ordering> {
        Some(byte_order(self@, other@))
    }
}

/// Keys sort as the bytes the store keeps them under.
pub proof fn law_key_order_is_byte_order<T>(a: UuidKey<T>, b: UuidKey<T>)
    ensures
        a.partial_cmp_spec(&b) == Some(byte_order(a.spec_key_bytes(), b.spec_key_bytes())),
{
    crate::key::lemma_uuid_key_bytes(a);
    crate::key::lemma_uuid_key_bytes(b);
}

/// Prefixed keys sort as the bytes the store keeps them under, and all keys
/// under one prefix sort before all keys under a later prefix: the keys of
/// one record's children lie together in the store.
pub proof fn law_prefix_groups<P, T>(a: PrefixedKey<UuidKey<P>, T>, b: PrefixedKey<UuidKey<P>, T>)
    ensures
        a.partial_cmp_spec(&b) == Some(byte_order(a.spec_key_bytes(), b.spec_key_bytes())),
        lex_lt(a.prefix_view(), b.prefix_view()) ==> a.partial_cmp_spec(&b) == Some(Ordering::Less),
{
    crate::key::lemma_prefixed_key_bytes(a);
    crate::key::lemma_prefixed_key_bytes(b);
    crate::key::lemma_prefixed_key_view(a);
    crate::key::lemma_prefixed_key_view(b);
    if lex_lt(a.prefix_view(), b.prefix_view()) {
        lemma_lex_extend(a.prefix_view(), b.prefix_view(), a.suffix_view(), b.suffix_view());
    }
}

/// An identifier whose first six bytes hold the time `ma` sorts before one
/// whose first six bytes hold a later time `mb`, whatever follows them.
proof fn lemma_time_bytes_order(a: Seq<u8>, b: Seq<u8>, ma: nat, mb: nat)
    requires
        a.len() == 16,
        b.len() == 16,
        a.subrange(0, 6) == be_bytes(ma, 6),
        b.subrange(0, 6) == be_bytes(mb, 6),
        ma < mb,
        mb < pow256(6),
    ensures
        lex_lt(a, b),
{
    lemma_be_bytes_len(ma, 6);
    lemma_be_bytes_len(mb, 6);
    lemma_be_bytes_order(ma, mb, 6);
    assert(a =~= a.subrange(0, 6) + a.subrange(6, 16));
    assert(b =~= b.subrange(0, 6) + b.subrange(6, 16));
    lemma_lex_extend(a.subrange(0, 6), b.subrange(0, 6), a.subrange(6, 16), b.subrange(6, 16));
}

/// Keys made at two times (as `UuidKey::new_at_time` makes them) sort as
/// the times do, to the millisecond, where the later time fits the 48 bits
/// the key holds it in.
pub proof fn law_keys_order_by_time<T>(
    a: UuidKey<T>,
    b: UuidKey<T>,
    secs_a: u64,
    nanos_a: u32,
    secs_b: u64,
    nanos_b: u32,
)
    requires
        a@.subrange(0, 6) == be_bytes(unix_millis(secs_a, nanos_a), 6),
        b@.subrange(0, 6) == be_bytes(unix_millis(secs_b, nanos_b), 6),
        unix_millis(secs_a, nanos_a) < unix_millis(secs_b, nanos_b),
        unix_millis(secs_b, nanos_b) < pow256(6),
    ensures
        a.partial_cmp_spec(&b) == Some(Ordering::Less),
{
    crate::key::lemma_uuid_key_bytes(a);
    crate::key::lemma_uuid_key_bytes(b);
    lemma_time_bytes_order(a@, b@, unix_millis(secs_a, nanos_a), unix_millis(secs_b, nanos_b));
}

/// Keys under one prefix made at two times (as `PrefixedKey::new_at_time`
/// makes them) sort as the times do, to the millisecond, where the later
/// time fits the 48 bits the key holds it in.
pub proof fn law_prefixed_keys_order_by_time<P, T>(
    a: PrefixedKey<UuidKey<P>, T>,
    b: PrefixedKey<UuidKey<P>, T>,
    secs_a: u64,
    nanos_a: u32,
    secs_b: u64,
    nanos_b: u32,
)
    requires
        a.prefix_view() == b.prefix_view(),
        a.suffix_view().subrange(0, 6) == be_bytes(unix_millis(secs_a, nanos_a), 6),
        b.suffix_view().subrange(0, 6) == be_bytes(unix_millis(secs_b, nanos_b), 6),
        unix_millis(secs_a, nanos_a) < unix_millis(secs_b, nanos_b),
        unix_millis(secs_b, nanos_b) < pow256(6),
    ensures
        a.partial_cmp_spec(&b) == Some(Ordering::Less),
{
    crate::key::lemma_prefixed_key_view(a);
    crate::key::lemma_prefixed_key_view(b);
    lemma_time_bytes_order(
        a.suffix_view(),
        b.suffix_view(),
        unix_millis(secs_a, nanos_a),
        unix_millis(secs_b, nanos_b),
    );
    lemma_lex_common_prefix(a.prefix_view(), a.suffix_view(), b.suffix_view());
}

/// Keys that are equal (`==` compares their bytes) have the same hash.
pub proof fn law_equal_keys_hash_alike<P, T>(a: PrefixedKey<P, T>, b: PrefixedKey<P, T>)
    requires
        a.eq_spec(&b),
    ensures
        combine_hash(be_value(a.prefix_view()) as u128, be_value(a.suffix_view()) as u128)
            == combine_hash(be_value(b.prefix_view()) as u128, be_value(b.suffix_view()) as u128),
{
    crate::key::lemma_prefixed_key_view(a);
    crate::key::lemma_prefixed_key_view(b);
    assert(a.prefix_view() =~= a@.subrange(0, 16));
    assert(b.prefix_view() =~= b@.subrange(0, 16));
    assert(a.suffix_view() =~= a@.subrange(16, 32));
    assert(b.suffix_view() =~= b@.subrange(16, 32));
}

} // verus!
