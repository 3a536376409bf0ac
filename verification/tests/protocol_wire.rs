use speakrs::protocol::{
    ChannelIdsProtocol, DeleteDataProtocol, UserIdsProtocol,
    NewChannelProtocol, NewDataProtocol, NewMessageProtocol, NewUserProtocol, Protocol,
};
use speakrs::wire::DecodeError;

#[test]
fn encode_new_channel() {
    let p = Protocol::create_channel("general".to_string(), "talk here".to_string());
    assert_eq!(p.encode(), "speakrs NewData NewChannel name=[general] desc=[talk here]");
}

#[test]
fn encode_new_message_counts_bytes() {
    let p = Protocol::send_message(1, 2, 3, "héllo".to_string());
    assert_eq!(
        p.encode(),
        "speakrs NewData NewMessage channel=[1] timestamp=[2] user=[3] content_length=[6] content=[héllo]"
    );
}

#[test]
fn encode_new_user_and_frame() {
    let p = Protocol::add_user("ann".to_string());
    assert_eq!(p.encode(), "speakrs NewData NewUser username=[ann]");
    assert_eq!(p.frame(), "speakrs NewData NewUser username=[ann]\n");
}

#[test]
fn encode_id_lists() {
    assert_eq!(
        Protocol::register_users(vec![1, 2]).encode(),
        "speakrs RegisterData User 2 [1 2]"
    );
    assert_eq!(
        Protocol::get_message(7, vec![10]).encode(),
        "speakrs GetData Message 7 1 [10]"
    );
    assert_eq!(
        Protocol::register_channels(vec![4, 5, 6]).encode(),
        "speakrs RegisterData Channel 3 [4 5 6]"
    );
}

#[test]
fn new_data_reads_back() {
    let requests = vec![
        Protocol::create_channel("general".to_string(), "talk".to_string()),
        Protocol::send_message(11, 1700000000000, 5, "a message [with] brackets".to_string()),
        Protocol::add_user("bob".to_string()),
    ];
    for p in requests {
        let text = p.encode();
        let (end, back) = Protocol::decode(text.as_bytes()).unwrap();
        assert_eq!(end, text.len());
        assert_eq!(back, p);
    }
}

#[test]
fn read_back_stops_at_the_request() {
    let p = Protocol::add_user("carol".to_string());
    let framed = p.frame();
    let (end, back) = Protocol::decode(framed.as_bytes()).unwrap();
    assert_eq!(end, framed.len() - 1);
    assert_eq!(back, p);
}

#[test]
fn message_read_back_fields() {
    let text = "speakrs NewData NewMessage channel=[9] timestamp=[8] user=[7] content_length=[2] content=[hi]";
    let (_, p) = Protocol::decode(text.as_bytes()).unwrap();
    assert_eq!(
        p,
        Protocol::NewData(NewDataProtocol::Message(NewMessageProtocol {
            channel: 9,
            timestamp: 8,
            user: 7,
            content: "hi".to_string(),
        }))
    );
}

#[test]
fn channel_and_user_read_back_fields() {
    let (_, p) = Protocol::decode(b"speakrs NewData NewChannel name=[a] desc=[b c]").unwrap();
    assert_eq!(
        p,
        Protocol::NewData(NewDataProtocol::Channel(NewChannelProtocol {
            name: "a".to_string(),
            desc: "b c".to_string(),
        }))
    );
    let (_, p) = Protocol::decode(b"speakrs NewData NewUser username=[zed]").unwrap();
    assert_eq!(
        p,
        Protocol::NewData(NewDataProtocol::User(NewUserProtocol { username: "zed".to_string() }))
    );
}

#[test]
fn id_lists_are_not_read_back() {
    let requests = vec![
        Protocol::register_users(vec![1, 2]),
        Protocol::register_channels(vec![3]),
        Protocol::register_messages(4, vec![5, 6]),
        Protocol::get_user(vec![7]),
        Protocol::get_channel(vec![8, 9, 10]),
        Protocol::get_message(11, vec![12]),
    ];
    for p in requests {
        let text = p.frame();
        assert_eq!(Protocol::decode(text.as_bytes()), Err(DecodeError::Malformed));
    }
}

#[test]
fn decode_errors() {
    assert_eq!(Protocol::decode(b"hello"), Err(DecodeError::Mismatch));
    assert_eq!(Protocol::decode(b"speakrs Foo bar"), Err(DecodeError::Unsupported));
    assert_eq!(
        Protocol::decode(b"speakrs NewData NewMessage channel=[x] timestamp=[1] user=[1] content_length=[1] content=[a]"),
        Err(DecodeError::Malformed)
    );
    assert_eq!(
        Protocol::decode(b"speakrs NewData NewMessage channel=[1] timestamp=[1] user=[1] content_length=[5] content=[a]"),
        Err(DecodeError::Unsupported)
    );
}

#[test]
fn parse_request_trailing_data() {
    let p = Protocol::add_user("dan".to_string());
    let plain = p.encode();
    let framed = p.frame();
    let (q, trailing) = Protocol::parse_request(plain.as_bytes()).unwrap();
    assert_eq!(q, p);
    assert!(!trailing);
    let (_, trailing) = Protocol::parse_request(framed.as_bytes()).unwrap();
    assert!(!trailing);
    let extra = format!("{}junk", plain);
    let (_, trailing) = Protocol::parse_request(extra.as_bytes()).unwrap();
    assert!(trailing);
    assert_eq!(Protocol::parse_request(b"nope"), Err(DecodeError::Mismatch));
}

#[test]
fn delete_requests_and_writability() {
    use_delete();
}

fn use_delete() {
    let p = Protocol::DeleteData(DeleteDataProtocol::User(UserIdsProtocol(vec![1])));
    assert!(p.is_writable());
    assert_eq!(p.encode(), "speakrs DeleteData User 1 [1]");
    assert_eq!(Protocol::decode(p.frame().as_bytes()), Err(DecodeError::Malformed));
    let empty = Protocol::DeleteData(DeleteDataProtocol::Channel(ChannelIdsProtocol(vec![])));
    assert!(!empty.is_writable());
    assert!(Protocol::create_channel("a".to_string(), "b".to_string()).is_writable());
}
