use speakrs::key::{DbKey, PrefixedKey, UuidKey};
use speakrs::keygen::IntegerKey;

fn decode(bytes: &[u8]) -> UuidKey<()> {
    assert_eq!(bytes.len(), 16);
    UuidKey::<()>::from_key_bytes(bytes)
}

#[test]
fn test_db_uuid_ordering() {
    let keys_in_order: Vec<UuidKey<()>> = (0..50).map(|_| UuidKey::new_now()).collect();

    let mut batch = sled::Batch::default();
    for key in &keys_in_order {
        batch.insert(key.key_bytes(), &[] as &[u8]);
    }

    let db = sled::Config::new().temporary(true).open().expect("open");
    db.apply_batch(batch).expect("Batch failed");

    let ranged: Vec<UuidKey<()>> = db
        .range(keys_in_order[3].key_bytes()..keys_in_order[7].key_bytes())
        .keys()
        .map(|r| r.map(|k| decode(&k)))
        .collect::<Result<Vec<_>, _>>()
        .unwrap();
    assert!(ranged == keys_in_order[3..7].to_vec());

    let all: Vec<UuidKey<()>> = db
        .iter()
        .keys()
        .map(|r| r.map(|k| decode(&k)))
        .collect::<Result<Vec<_>, _>>()
        .unwrap();
    assert!(all == keys_in_order);
}

#[test]
fn integer_key_bytes_in_a_tree() {
    let db = sled::Config::new().temporary(true).open().expect("open");
    let table = db.open_tree("integers").expect("open");
    table.insert(IntegerKey(2).key_bytes(), &20u64.to_ne_bytes()).unwrap();
    let stored = table.get(IntegerKey(2).key_bytes()).unwrap().unwrap();
    assert_eq!(stored.as_ref(), &20u64.to_ne_bytes());
}

#[test]
fn keys_carry_their_time() {
    let k = UuidKey::<()>::new_at_time(1, 0);
    assert!(k.to_display_string().starts_with("00000000-03e8-7"));
    let k = UuidKey::<()>::new_at_time(1_700_000_000, 123_456_789);
    let ms: u64 = 1_700_000_000_123;
    assert_eq!(&k.key_bytes()[0..6], &ms.to_be_bytes()[2..8]);
    assert_eq!(k.key_bytes()[6] >> 4, 7);
}

#[test]
fn keys_sort_by_their_time() {
    let early = UuidKey::<()>::new_at_time(5, 999_999_999);
    let late = UuidKey::<()>::new_at_time(6, 0);
    assert!(early < late);
    let p = UuidKey::<()>::new_now();
    let a: PrefixedKey<UuidKey<()>, ()> = PrefixedKey::new_at_time(100, 0, p);
    let b: PrefixedKey<UuidKey<()>, ()> = PrefixedKey::new_at_time(100, 2_000_000, p);
    assert!(a < b);
    assert!(a.prefix() == p && b.prefix() == p);
}

#[test]
fn prefixed_key_hash_combines_both_identifiers() {
    let zero: PrefixedKey<UuidKey<()>, ()> = PrefixedKey::from_key_bytes(&[0u8; 32]);
    assert_eq!(zero.hash_value(), 0x517cc1b727220a95);
    let mut bytes = [0u8; 32];
    bytes[15] = 1;
    bytes[31] = 2;
    let k: PrefixedKey<UuidKey<()>, ()> = PrefixedKey::from_key_bytes(&bytes);
    let lhs: u128 = 1;
    let rhs: u128 = 2;
    let expected = lhs ^ rhs.wrapping_add(0x517cc1b727220a95).wrapping_add(lhs << 6).wrapping_add(lhs >> 2);
    assert_eq!(k.hash_value(), expected);
    assert_eq!(k.hash_value(), 1 ^ (2 + 0x517cc1b727220a95 + 64));
    let mut big = [0xffu8; 32];
    big[0] = 0xff;
    let m: PrefixedKey<UuidKey<()>, ()> = PrefixedKey::from_key_bytes(&big);
    let l = u128::MAX;
    let expected = l ^ l.wrapping_add(0x517cc1b727220a95).wrapping_add(l << 6).wrapping_add(l >> 2);
    assert_eq!(m.hash_value(), expected);
}
