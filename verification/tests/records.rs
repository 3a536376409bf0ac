use speakrs::event::DBEvent;
use speakrs::key::{DbKey, PrefixedKey, UuidKey};
use speakrs::keygen::{GenerateKey, IntegerKey, PrefixedKeygen, SingletonKeygen, UuidNowKeygen};
use speakrs::schema::{ChannelData, ChannelKey, ChannelType, MessageData, UserData, UserKey, UtcTime};

#[test]
fn channel_records() {
    let c = ChannelData::text("general".to_string(), "everything".to_string());
    assert_eq!(c.get_name(), "general");
    assert_eq!(c.get_description(), "everything");
    assert_eq!(c.get_channel_type(), ChannelType::Text);
    let v = ChannelData::voice("talk".to_string(), "".to_string());
    assert_eq!(v.get_channel_type(), ChannelType::Voice);
    assert_eq!(v.get_name(), "talk");
}

#[test]
fn user_and_message_records() {
    assert_eq!(UserData::new("ann".to_string()).name, "ann");
    let author = UserKey::new_now();
    let at = UtcTime { seconds: 5, nanos: 6 };
    let m = MessageData::new(at, author, "hi".to_string());
    assert_eq!(m.timestamp, at);
    assert!(m.author == author);
    let n = MessageData::now(author, "later".to_string());
    assert_eq!(n.content, "later");
    assert!(n.timestamp.seconds > 1_600_000_000);
}

#[test]
fn key_makers() {
    let gen = UuidNowKeygen::new();
    let a: UserKey = gen.generate_next();
    let b: UserKey = gen.generate_next();
    assert!(a != b);
    let channel = ChannelKey::new_now();
    let pg = PrefixedKeygen::construct(&channel);
    let m: PrefixedKey<ChannelKey, MessageData> = pg.generate_next();
    assert!(m.prefix() == channel);
    let _single = SingletonKeygen.generate_next();
}

#[test]
fn key_bytes_read_back() {
    let k: UuidKey<()> = UuidKey::new_now();
    let bytes = k.key_bytes();
    assert_eq!(bytes.len(), 16);
    assert!(UuidKey::<()>::from_key_bytes(&bytes) == k);
    let p: PrefixedKey<UuidKey<()>, ()> = PrefixedKey::new_now(k);
    let pb = p.key_bytes();
    assert_eq!(pb.len(), 32);
    assert_eq!(&pb[..16], &bytes[..]);
    assert!(PrefixedKey::<UuidKey<()>, ()>::from_key_bytes(&pb) == p);
}

#[test]
fn integer_keys() {
    let k = IntegerKey(0x0102030405060708);
    let b = k.key_bytes();
    assert_eq!(b.len(), 8);
    assert_eq!(b, 0x0102030405060708u64.to_ne_bytes().to_vec());
    if b == vec![8, 7, 6, 5, 4, 3, 2, 1] {
        assert_eq!(IntegerKey::from_key_bytes(&b), k);
    }
    assert_eq!(IntegerKey::from_key_bytes(&[1, 0, 0, 0, 0, 0, 0, 0]), IntegerKey(1));
}

#[test]
fn events_name_their_key() {
    let e: DBEvent<u32, &str> = DBEvent::Insert { key: 3, value: "x" };
    assert_eq!(*e.key(), 3);
    let r: DBEvent<u32, &str> = DBEvent::Remove { key: 4 };
    assert_eq!(*r.key(), 4);
}

fn key_of(bytes: [u8; 16]) -> UuidKey<()> {
    UuidKey::<()>::from_key_bytes(&bytes)
}

#[test]
fn uuid_text_form() {
    let k = key_of([
        0x67, 0xe5, 0x50, 0x44, 0x10, 0xb1, 0x42, 0x6f, 0x92, 0x47, 0xbb, 0x68, 0x0e, 0x5f, 0xe0,
        0xc8,
    ]);
    assert_eq!(k.to_display_string(), "67e55044-10b1-426f-9247-bb680e5fe0c8");
    let p: PrefixedKey<UuidKey<()>, ()> = k.with_prefix(key_of([0; 16]));
    assert_eq!(
        p.to_display_string(),
        "(00000000-0000-0000-0000-000000000000, 67e55044-10b1-426f-9247-bb680e5fe0c8)"
    );
}

#[test]
fn keys_sort_by_bytes() {
    let a = key_of([0; 16]);
    let mut b_bytes = [0u8; 16];
    b_bytes[15] = 1;
    let b = key_of(b_bytes);
    let mut c_bytes = [0u8; 16];
    c_bytes[0] = 1;
    let c = key_of(c_bytes);
    assert!(a < b && b < c && a < c);
    assert_eq!(a.partial_cmp(&a), Some(std::cmp::Ordering::Equal));
    let p1: PrefixedKey<UuidKey<()>, ()> = c.with_prefix(a);
    let p2: PrefixedKey<UuidKey<()>, ()> = a.with_prefix(b);
    assert!(p1 < p2);
}

#[test]
fn fresh_keys_are_version_7_and_ordered() {
    let gen = UuidNowKeygen::new();
    let mut last: UserKey = gen.generate_next();
    for _ in 0..50 {
        let next: UserKey = gen.generate_next();
        assert!(last < next);
        assert_eq!(&next.to_display_string()[14..15], "7");
        last = next;
    }
}

#[test]
fn table_declarations() {
    let decl: speakrs::codec::TableDecl<()> = speakrs::codec::TableDecl::decl("users");
    assert_eq!(decl.name(), "users");
}
