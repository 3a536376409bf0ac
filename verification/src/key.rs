//! Keys of the store's tables and their byte encodings.
//!
//! The store sorts its entries by the bytes of their keys, so each key type
//! fixes exactly which bytes stand for it.
use std::marker::PhantomData;
use vstd::prelude::*;

use crate::bytes::{array_to_vec, be_bytes, be_u128, be_value, equal16, take16};
use crate::uuid_gen::{
    has_version, unix_millis, uuid_new_v7, uuid_new_v7_in, uuid_now_v7, uuid_text, uuid_to_string,
};

verus! {

/// A key of the store: the bytes it is kept under, and how it is read back.
pub trait DbKey: Sized {
    /// The bytes under which the store keeps the key.
    spec fn spec_key_bytes(&self) -> Seq<u8>;

    /// The byte strings from which `from_key_bytes` reads a key.
    spec fn spec_decodable(bytes: Seq<u8>) -> bool;

    /// The bytes under which the store keeps the key.
    fn key_bytes(&self) -> (r: Vec<u8>)
        ensures
            r@ == self.spec_key_bytes(),
    ;

    /// Reads a key back from the bytes the store kept it under.
    fn from_key_bytes(bytes: &[u8]) -> (r: Self)
        requires
            Self::spec_decodable(bytes@),
    ;
}

/// A key whose first part is itself a key of type `P`.
pub trait Prefixed<P> {
    /// The key made of the first part of this key.
    fn prefix(&self) -> P;
}

// ======================================
// => UuidKey
// ======================================
/// A key made of one 128-bit identifier, tagged with the type of record it
/// identifies.
#[derive(Debug, Hash)]
pub struct UuidKey<T> {
    uid: [u8; 16],
    id_type: PhantomData<T>,
}

impl<T> View for UuidKey<T> {
    type V = Seq<u8>;

    /// The sixteen bytes of the identifier.
    closed spec fn view(&self) -> Seq<u8> {
        self.uid@
    }
}


impl<T> Clone for UuidKey<T> {
    fn clone(&self) -> (r: Self)
        ensures
            r == *self,
    {
        *self
    }
}

impl<T> Copy for UuidKey<T> {

}

impl<T> PartialEq for UuidKey<T> {
    fn eq(&self, other: &Self) -> (r: bool) {
        proof {
            lemma_uuid_key_equal_views::<T>(*self, *other);
        }
        equal16(&self.uid, &other.uid)
    }
}

impl<T> vstd::std_specs::cmp::PartialEqSpecImpl for UuidKey<T> {
    open spec fn obeys_eq_spec() -> bool {
        true
    }

    open spec fn eq_spec(&self, other: &Self) -> bool {
        self@ == other@
    }
}

impl<T> Eq for UuidKey<T> {

}

/// Two keys of the same type with the same bytes are the same key.
pub proof fn lemma_uuid_key_equal_views<T>(a: UuidKey<T>, b: UuidKey<T>)
    ensures
        a@ == b@ <==> a == b,
{
    if a@ == b@ {
        assert(a.uid@ == b.uid@);
        assert(a.uid == b.uid);
    }
}

impl<T> UuidKey<T> {
    /// The key with identifier `uid`.
    pub(crate) fn with_uid(uid: [u8; 16]) -> (r: Self)
        ensures
            r@ == uid@,
    {
        UuidKey { uid, id_type: PhantomData }
    }

    /// The key whose identifier has these bytes.
    fn from_bytes(bytes: [u8; 16]) -> (r: Self)
        ensures
            r@ == bytes@,
    {
        Self::with_uid(bytes)
    }

    /// A fresh version 7 key from the current time.
    pub fn new_now() -> (r: Self)
        ensures
            has_version(r@, 7),
    {
        Self::with_uid(uuid_now_v7())
    }

    /// A fresh version 7 key from the time `secs` seconds and `nanos`
    /// nanoseconds after the Unix epoch: its first six bytes are the low 48
    /// bits of that time in milliseconds, most significant first.
    pub fn new_at_time(secs: u64, nanos: u32) -> (r: Self)
        ensures
            has_version(r@, 7),
            r@.subrange(0, 6) == be_bytes(unix_millis(secs, nanos), 6),
    {
        Self::with_uid(uuid_new_v7(secs, nanos))
    }

    /// A fresh version 7 key from the clock and the counter of `context`.
    pub(crate) fn new_in(context: &uuid::ContextV7) -> (r: Self)
        ensures
            has_version(r@, 7),
    {
        Self::with_uid(uuid_new_v7_in(context))
    }

    /// The key for a record of type `T` that belongs to the record `prefix`
    /// identifies: the prefix first, then this key.
    pub fn with_prefix<P>(self, prefix: UuidKey<P>) -> (r: PrefixedKey<UuidKey<P>, T>)
        ensures
            r.prefix_view() == prefix@,
            r.suffix_view() == self@,
    {
        PrefixedKey { uuids: [prefix.uid, self.uid], id_type: PhantomData }
    }

    /// The hyphenated text form of the identifier.
    pub fn to_display_string(&self) -> (r: String)
        ensures
            r@ == uuid_text(self@),
    {
        uuid_to_string(&self.uid)
    }
}

impl<T> DbKey for UuidKey<T> {
    closed spec fn spec_key_bytes(&self) -> Seq<u8> {
        self.uid@
    }

    open spec fn spec_decodable(bytes: Seq<u8>) -> bool {
        bytes.len() == 16
    }

    fn key_bytes(&self) -> (r: Vec<u8>)
        ensures
            r@ == self@,
            r@.len() == 16,
    {
        array_to_vec(&self.uid)
    }

    fn from_key_bytes(bytes: &[u8]) -> (r: Self)
        ensures
            r@ == bytes@,
    {
        Self::from_bytes(take16(bytes, 0))
    }
}

/// The store keeps a key under the sixteen bytes of its identifier.
pub proof fn lemma_uuid_key_bytes<T>(k: UuidKey<T>)
    ensures
        k.spec_key_bytes() == k@,
        k@.len() == 16,
{
}

/// A key read back from the bytes the store keeps it under is the same key:
/// for every key `k`, `UuidKey::from_key_bytes(&k.key_bytes())` is `k`.
/// `key_bytes` hands out the key's sixteen bytes, which `from_key_bytes`
/// accepts, and it gives the key whose bytes it is handed; any key with
/// those bytes is `k`. Other lengths are refused by `from_key_bytes`'s
/// `requires`.
pub proof fn law_uuid_key_read_back<T>(k: UuidKey<T>, read: UuidKey<T>)
    requires
        read@ == k.spec_key_bytes(),
    ensures
        read == k,
{
    lemma_uuid_key_equal_views(read, k);
}

// ======================================
// => PrefixedKey
// ======================================
/// A key made of two identifiers: that of the record it belongs to (the
/// prefix), then its own (the suffix).
#[derive(Debug, Hash)]
pub struct PrefixedKey<Prefix, T> {
    uuids: [[u8; 16]; 2],
    id_type: PhantomData<(Prefix, T)>,
}

/// The hash that combines the numbers `lhs` and `rhs` of a key's two
/// identifiers: `lhs ^ (rhs + 0x517cc1b727220a95 + (lhs << 6) + (lhs >> 2))`,
/// each sum wrapping at 2^128.
pub open spec fn combine_hash(lhs: u128, rhs: u128) -> u128 {
    lhs ^ rhs.wrapping_add(0x517cc1b727220a95).wrapping_add(lhs << 6).wrapping_add(lhs >> 2)
}

impl<Prefix, T> PrefixedKey<Prefix, T> {
    /// The sixteen bytes of the prefix identifier.
    pub closed spec fn prefix_view(&self) -> Seq<u8> {
        self.uuids[0]@
    }

    /// The sixteen bytes of the suffix identifier.
    pub closed spec fn suffix_view(&self) -> Seq<u8> {
        self.uuids[1]@
    }
}

impl<Prefix, T> View for PrefixedKey<Prefix, T> {
    type V = Seq<u8>;

    /// The prefix identifier's bytes followed by the suffix identifier's.
    closed spec fn view(&self) -> Seq<u8> {
        self.uuids[0]@ + self.uuids[1]@
    }
}

/// Both identifiers are sixteen bytes long, and the key's bytes are the
/// prefix's followed by the suffix's.
pub proof fn lemma_prefixed_key_view<Prefix, T>(k: PrefixedKey<Prefix, T>)
    ensures
        k.prefix_view().len() == 16,
        k.suffix_view().len() == 16,
        k@ == k.prefix_view() + k.suffix_view(),
{
}

/// Two prefixed keys with the same bytes are the same key.
pub proof fn lemma_prefixed_key_equal_views<Prefix, T>(
    a: PrefixedKey<Prefix, T>,
    b: PrefixedKey<Prefix, T>,
)
    ensures
        a@ == b@ <==> a == b,
{
    if a@ == b@ {
        assert(a.uuids[0]@ == a@.subrange(0, 16));
        assert(b.uuids[0]@ == b@.subrange(0, 16));
        assert(a.uuids[1]@ == a@.subrange(16, 32));
        assert(b.uuids[1]@ == b@.subrange(16, 32));
        assert(a.uuids[0] == b.uuids[0]);
        assert(a.uuids[1] == b.uuids[1]);
        assert(a.uuids@ =~= b.uuids@);
        assert(a.uuids == b.uuids);
    }
}

impl<Prefix, T> Clone for PrefixedKey<Prefix, T> {
    fn clone(&self) -> (r: Self)
        ensures
            r == *self,
    {
        *self
    }
}

impl<Prefix, T> Copy for PrefixedKey<Prefix, T> {

}

impl<Prefix, T> PartialEq for PrefixedKey<Prefix, T> {
    fn eq(&self, other: &Self) -> (r: bool) {
        proof {
            lemma_prefixed_key_equal_views(*self, *other);
        }
        let first = equal16(&self.uuids[0], &other.uuids[0]);
        let second = equal16(&self.uuids[1], &other.uuids[1]);
        first && second
    }
}

impl<Prefix, T> vstd::std_specs::cmp::PartialEqSpecImpl for PrefixedKey<Prefix, T> {
    open spec fn obeys_eq_spec() -> bool {
        true
    }

    open spec fn eq_spec(&self, other: &Self) -> bool {
        self@ == other@
    }
}

impl<Prefix, T> Eq for PrefixedKey<Prefix, T> {

}

impl<Prefix, T> PrefixedKey<Prefix, T> {
    /// The hash of the key: the numbers its prefix and suffix identifiers
    /// write, most significant byte first, combined by `combine_hash`.
    pub fn hash_value(&self) -> (r: u128)
        ensures
            r == combine_hash(
                be_value(self.prefix_view()) as u128,
                be_value(self.suffix_view()) as u128,
            ),
    {
        let lhs = be_u128(&self.uuids[0]);
        let rhs = be_u128(&self.uuids[1]);
        lhs ^ rhs.wrapping_add(0x517cc1b727220a95).wrapping_add(lhs << 6).wrapping_add(lhs >> 2)
    }

    /// The key of the record itself, without the prefix.
    pub fn suffix(&self) -> (r: UuidKey<T>)
        ensures
            r@ == self.suffix_view(),
    {
        UuidKey::with_uid(self.uuids[1])
    }
}

impl<P, T> PrefixedKey<UuidKey<P>, T> {
    /// A fresh key under `prefix`, with a version 7 suffix from the current time.
    pub fn new_now(prefix: UuidKey<P>) -> (r: Self)
        ensures
            r.prefix_view() == prefix@,
            has_version(r.suffix_view(), 7),
    {
        UuidKey::<T>::new_now().with_prefix(prefix)
    }

    /// A fresh key under `prefix`, with a version 7 suffix from the time
    /// `secs` seconds and `nanos` nanoseconds after the Unix epoch (see
    /// `UuidKey::new_at_time`).
    pub fn new_at_time(secs: u64, nanos: u32, prefix: UuidKey<P>) -> (r: Self)
        ensures
            r.prefix_view() == prefix@,
            has_version(r.suffix_view(), 7),
            r.suffix_view().subrange(0, 6) == be_bytes(unix_millis(secs, nanos), 6),
    {
        UuidKey::<T>::new_at_time(secs, nanos).with_prefix(prefix)
    }

    /// The key of the record this key belongs to.
    pub fn prefix(&self) -> (r: UuidKey<P>)
        ensures
            r@ == self.prefix_view(),
    {
        UuidKey::with_uid(self.uuids[0])
    }
}

impl<P, T> Prefixed<UuidKey<P>> for PrefixedKey<UuidKey<P>, T> {
    /// The key of the record this key belongs to.
    fn prefix(&self) -> (r: UuidKey<P>)
        ensures
            r@ == self.prefix_view(),
    {
        UuidKey::with_uid(self.uuids[0])
    }
}

impl<Prefix, T> PrefixedKey<Prefix, T> {
    /// "(prefix, suffix)" with both identifiers in hyphenated form.
    pub fn to_display_string(&self) -> (r: String)
        ensures
            r@ == seq!['('] + uuid_text(self.prefix_view()) + seq![',', ' '] + uuid_text(
                self.suffix_view(),
            ) + seq![')'],
    {
        let mut s = String::from_str("(");
        let first = uuid_to_string(&self.uuids[0]);
        s.append(first.as_str());
        s.append(", ");
        let second = uuid_to_string(&self.uuids[1]);
        s.append(second.as_str());
        s.append(")");
        proof {
            reveal_strlit("(");
            reveal_strlit(", ");
            reveal_strlit(")");
        }
        s
    }
}

impl<Prefix, T> DbKey for PrefixedKey<Prefix, T> {
    closed spec fn spec_key_bytes(&self) -> Seq<u8> {
        self.uuids[0]@ + self.uuids[1]@
    }

    open spec fn spec_decodable(bytes: Seq<u8>) -> bool {
        bytes.len() == 32
    }

    fn key_bytes(&self) -> (r: Vec<u8>)
        ensures
            r@ == self@,
            r@.len() == 32,
    {
        let mut r = array_to_vec(&self.uuids[0]);
        let mut second = array_to_vec(&self.uuids[1]);
        r.append(&mut second);
        r
    }

    fn from_key_bytes(bytes: &[u8]) -> (r: Self)
        ensures
            r@ == bytes@,
    {
        let first = take16(bytes, 0);
        let second = take16(bytes, 16);
        assert(bytes@ =~= bytes@.subrange(0, 16) + bytes@.subrange(16, 32));
        PrefixedKey { uuids: [first, second], id_type: PhantomData }
    }
}

/// The store keeps a prefixed key under its prefix's sixteen bytes followed
/// by its suffix's.
pub proof fn lemma_prefixed_key_bytes<Prefix, T>(k: PrefixedKey<Prefix, T>)
    ensures
        k.spec_key_bytes() == k@,
{
}

/// A prefixed key read back from the bytes the store keeps it under is the
/// same key.
pub proof fn law_prefixed_key_read_back<Prefix, T>(k: PrefixedKey<Prefix, T>, read: PrefixedKey<Prefix, T>)
    requires
        read@ == k.spec_key_bytes(),
    ensures
        read == k,
{
    lemma_prefixed_key_equal_views(read, k);
}

// ======================================
// => SingletonKey
// ======================================
/// The one key of a table that holds a single record.
#[derive(Clone, Copy, Debug, PartialEq, Eq, Structural)]
pub struct SingletonKey;

impl DbKey for SingletonKey {
    open spec fn spec_key_bytes(&self) -> Seq<u8> {
        Seq::empty()
    }

    open spec fn spec_decodable(bytes: Seq<u8>) -> bool {
        true
    }

    fn key_bytes(&self) -> (r: Vec<u8>) {
        Vec::new()
    }

    fn from_key_bytes(bytes: &[u8]) -> (r: Self) {
        SingletonKey
    }
}

} // verus!
