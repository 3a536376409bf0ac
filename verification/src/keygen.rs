//! Making keys for new records, and the integer key.
use vstd::bytes::{spec_u64_from_le_bytes, spec_u64_to_le_bytes, u64_from_le_bytes};
use vstd::prelude::*;

use crate::key::{PrefixedKey, SingletonKey, UuidKey};
use crate::uuid_gen::{context_v7_new, has_version};

verus! {

/// Makes the key of a new record.
pub trait GenerateKey<Key> {
    /// Whether `key` is a key this maker hands out.
    spec fn makes(&self, key: Key) -> bool;

    /// The key of the next new record.
    fn generate_next(&self) -> (r: Key)
        ensures
            self.makes(r),
    ;
}

/// The context a key maker is made in when nothing more is given.
#[derive(Clone, Copy, Debug, Default)]
pub struct DefaultContext;

/// Marks a table whose keys are always given, never made.
#[derive(Debug)]
pub struct KeyMustBeProvided;

/// Marks a table whose keys count up.
#[derive(Debug)]
pub struct AutoIncrementKeygen;

/// Makes the one key of a single-record table.
#[derive(Debug)]
pub struct SingletonKeygen;

impl GenerateKey<SingletonKey> for SingletonKeygen {
    /// The one key.
    open spec fn makes(&self, key: SingletonKey) -> bool {
        key == SingletonKey
    }

    fn generate_next(&self) -> (r: SingletonKey)
        ensures
            r == SingletonKey,
    {
        SingletonKey
    }
}

/// Makes fresh version 7 keys from the current time, through its own
/// version 7 context.
pub struct UuidNowKeygen(pub uuid::ContextV7);

impl UuidNowKeygen {
    /// A maker with a fresh context.
    pub fn new() -> Self {
        UuidNowKeygen(context_v7_new())
    }

    /// A fresh version 7 key from the current time.
    pub fn next_key<T>(&self) -> (r: UuidKey<T>)
        ensures
            has_version(r@, 7),
    {
        UuidKey::new_in(&self.0)
    }
}

impl<T> GenerateKey<UuidKey<T>> for UuidNowKeygen {
    /// Version 7 keys.
    open spec fn makes(&self, key: UuidKey<T>) -> bool {
        has_version(key@, 7)
    }

    fn generate_next(&self) -> UuidKey<T> {
        self.next_key()
    }
}

/// Makes fresh keys under the prefix it holds.
pub struct PrefixedKeygen<Prefix>(pub Prefix, pub UuidNowKeygen);

impl<P> PrefixedKeygen<UuidKey<P>> {
    /// A maker of keys under `prefix`.
    pub fn construct(prefix: &UuidKey<P>) -> (r: Self)
        ensures
            r.0 == *prefix,
    {
        PrefixedKeygen(*prefix, UuidNowKeygen::new())
    }

    /// A fresh key under the held prefix, with a version 7 suffix from the
    /// current time.
    pub fn next_key<T>(&self) -> (r: PrefixedKey<UuidKey<P>, T>)
        ensures
            r.prefix_view() == self.0@,
            has_version(r.suffix_view(), 7),
    {
        let suffix: UuidKey<T> = self.1.next_key();
        suffix.with_prefix(self.0)
    }
}

impl<P, T> GenerateKey<PrefixedKey<UuidKey<P>, T>> for PrefixedKeygen<UuidKey<P>> {
    /// Keys under the held prefix with a version 7 suffix.
    open spec fn makes(&self, key: PrefixedKey<UuidKey<P>, T>) -> bool {
        key.prefix_view() == self.0@ && has_version(key.suffix_view(), 7)
    }

    fn generate_next(&self) -> PrefixedKey<UuidKey<P>, T> {
        self.next_key()
    }
}

// ======================================
// => IntegerKey
// ======================================
/// A key that is a 64-bit number.
#[derive(Clone, Copy, Debug, PartialEq, Eq, Structural)]
pub struct IntegerKey(pub u64);

/// The bytes of `x`, most significant first.
pub open spec fn u64_be_bytes(x: u64) -> Seq<u8> {
    spec_u64_to_le_bytes(x).reverse()
}

/// Calls `bytemuck::bytes_of` on `x`: the bytes of the number as the machine
/// holds it, least significant first on a little-endian machine and most
/// significant first on a big-endian one.
#[verifier::external_body]
fn u64_native_bytes(x: &u64) -> (r: Vec<u8>)
    ensures
        r@ == spec_u64_to_le_bytes(*x) || r@ == u64_be_bytes(*x),
{
    bytemuck::bytes_of(x).to_vec()
}

impl IntegerKey {
    /// The bytes the store keeps the key under: the number as the machine
    /// holds it.
    pub fn key_bytes(&self) -> (r: Vec<u8>)
        ensures
            r@ == spec_u64_to_le_bytes(self.0) || r@ == u64_be_bytes(self.0),
    {
        u64_native_bytes(&self.0)
    }

    /// Reads a key back from eight bytes, least significant first.
    pub fn from_key_bytes(bytes: &[u8]) -> (r: Self)
        requires
            bytes@.len() == 8,
        ensures
            r.0 == spec_u64_from_le_bytes(bytes@),
    {
        IntegerKey(u64_from_le_bytes(bytes))
    }
}

/// On a little-endian machine a key is read back from the bytes it is kept
/// under. (On a big-endian one it is not: its bytes are read in the wrong
/// order.)
pub proof fn law_integer_key_read_back(x: u64)
    ensures
        spec_u64_to_le_bytes(x).len() == 8,
        spec_u64_from_le_bytes(spec_u64_to_le_bytes(x)) == x,
{
    vstd::bytes::lemma_auto_spec_u64_to_from_le_bytes();
}

} // verus!
