//! The line protocol between client and server: requests to create data,
//! and requests that name data by ids, each written as one line of text.
use vstd::prelude::*;
use vstd::utf8::{encode_utf8, is_ascii_chars};

use crate::text::{decimal, push_decimal, str_byte_len};
use crate::wire::{
    field, lemma_decimal_ascii, lemma_not_a_number, lemma_scan_from, lemma_scan_to_delim,
    lemma_field_occurs, lemma_lit_ascii, lemma_lit_ascii_char, lemma_lit_concat,
    lemma_lit_no_close, lemma_number_occurs, lemma_occurs_split, lemma_tag_differs,
    lemma_tag_occurs, lemma_text_occurs, lit, number, occurs, opt_pos, parse_unsigned, scan,
    scan_to, spec_field, spec_tag, spec_text, tag, text, DecodeError,
};

verus! {

/// The id of a channel on the wire.
pub type ChannelId = u64;

/// The id of a user on the wire.
pub type UserId = u64;

/// The id of a message on the wire.
pub type MessageId = u64;

/// The word every request starts with.
pub open spec fn kw_protocol() -> Seq<char> {
    seq!['s', 'p', 'e', 'a', 'k', 'r', 's']
}

/// The character that ends a request on the wire.
pub open spec fn end_char() -> char {
    '\n'
}

/// The character that ends a request on the wire.
pub fn protocol_end_char() -> (r: char)
    ensures
        r == end_char(),
{
    '\n'
}

// ======================================
// => Requests
// ======================================
/// A request to create a channel.
#[derive(Debug, PartialEq, Eq)]
pub struct NewChannelProtocol {
    pub name: String,
    pub desc: String,
}

/// A request to create a message; the time is in milliseconds since the
/// Unix epoch.
#[derive(Debug, PartialEq, Eq)]
pub struct NewMessageProtocol {
    pub channel: ChannelId,
    pub timestamp: u64,
    pub user: UserId,
    pub content: String,
}

/// A request to create a user.
#[derive(Debug, PartialEq, Eq)]
pub struct NewUserProtocol {
    pub username: String,
}

/// A request to create data.
#[derive(Debug, PartialEq, Eq)]
pub enum NewDataProtocol {
    Message(NewMessageProtocol),
    User(NewUserProtocol),
    Channel(NewChannelProtocol),
}

/// Channel ids.
#[derive(Debug, PartialEq, Eq)]
pub struct ChannelIdsProtocol(pub Vec<ChannelId>);

/// Message ids within a channel.
#[derive(Debug, PartialEq, Eq)]
pub struct MessageIdsProtocol(pub ChannelId, pub Vec<MessageId>);

/// User ids.
#[derive(Debug, PartialEq, Eq)]
pub struct UserIdsProtocol(pub Vec<UserId>);

/// A request to register interest in data.
#[derive(Debug, PartialEq, Eq)]
pub enum RegisterDataProtocol {
    Message(MessageIdsProtocol),
    User(UserIdsProtocol),
    Channel(ChannelIdsProtocol),
}

/// A request to get data.
#[derive(Debug, PartialEq, Eq)]
pub enum GetDataProtocol {
    Message(MessageIdsProtocol),
    User(UserIdsProtocol),
    Channel(ChannelIdsProtocol),
}

/// A request to delete data.
#[derive(Debug, PartialEq, Eq)]
pub enum DeleteDataProtocol {
    Message(MessageIdsProtocol),
    User(UserIdsProtocol),
    Channel(ChannelIdsProtocol),
}

/// A request of the protocol.
#[derive(Debug, PartialEq, Eq)]
pub enum Protocol {
    NewData(NewDataProtocol),
    RegisterData(RegisterDataProtocol),
    GetData(GetDataProtocol),
    DeleteData(DeleteDataProtocol),
}

// ======================================
// => Abstract requests
// ======================================
/// A request to create data, with its text as characters.
pub enum NewDataView {
    Message { channel: u64, timestamp: u64, user: u64, content: Seq<char> },
    User { username: Seq<char> },
    Channel { name: Seq<char>, desc: Seq<char> },
}

/// A list of ids of one kind.
pub enum IdsView {
    Message { channel: u64, ids: Seq<u64> },
    User { ids: Seq<u64> },
    Channel { ids: Seq<u64> },
}

/// A request of the protocol, with text as characters.
pub enum ProtocolView {
    NewData(NewDataView),
    RegisterData(IdsView),
    GetData(IdsView),
    DeleteData(IdsView),
}

impl View for NewDataProtocol {
    type V = NewDataView;

    open spec fn view(&self) -> NewDataView {
        match self {
            NewDataProtocol::Message(m) => NewDataView::Message {
                channel: m.channel,
                timestamp: m.timestamp,
                user: m.user,
                content: m.content@,
            },
            NewDataProtocol::User(u) => NewDataView::User { username: u.username@ },
            NewDataProtocol::Channel(c) => NewDataView::Channel { name: c.name@, desc: c.desc@ },
        }
    }
}

impl View for MessageIdsProtocol {
    type V = IdsView;

    open spec fn view(&self) -> IdsView {
        IdsView::Message { channel: self.0, ids: self.1@ }
    }
}

impl View for UserIdsProtocol {
    type V = IdsView;

    open spec fn view(&self) -> IdsView {
        IdsView::User { ids: self.0@ }
    }
}

impl View for ChannelIdsProtocol {
    type V = IdsView;

    open spec fn view(&self) -> IdsView {
        IdsView::Channel { ids: self.0@ }
    }
}

impl View for RegisterDataProtocol {
    type V = IdsView;

    open spec fn view(&self) -> IdsView {
        match self {
            RegisterDataProtocol::Message(m) => m@,
            RegisterDataProtocol::User(u) => u@,
            RegisterDataProtocol::Channel(c) => c@,
        }
    }
}

impl View for GetDataProtocol {
    type V = IdsView;

    open spec fn view(&self) -> IdsView {
        match self {
            GetDataProtocol::Message(m) => m@,
            GetDataProtocol::User(u) => u@,
            GetDataProtocol::Channel(c) => c@,
        }
    }
}

impl View for DeleteDataProtocol {
    type V = IdsView;

    open spec fn view(&self) -> IdsView {
        match self {
            DeleteDataProtocol::Message(m) => m@,
            DeleteDataProtocol::User(u) => u@,
            DeleteDataProtocol::Channel(c) => c@,
        }
    }
}

impl View for Protocol {
    type V = ProtocolView;

    open spec fn view(&self) -> ProtocolView {
        match self {
            Protocol::NewData(d) => ProtocolView::NewData(d@),
            Protocol::RegisterData(r) => ProtocolView::RegisterData(r@),
            Protocol::GetData(g) => ProtocolView::GetData(g@),
            Protocol::DeleteData(d) => ProtocolView::DeleteData(d@),
        }
    }
}

/// The ids of a list of ids.
pub open spec fn ids_of(v: IdsView) -> Seq<u64> {
    match v {
        IdsView::Message { ids, .. } => ids,
        IdsView::User { ids } => ids,
        IdsView::Channel { ids } => ids,
    }
}

/// Every list of ids in the request is non-empty: only such requests can be
/// written.
pub open spec fn writable(p: ProtocolView) -> bool {
    match p {
        ProtocolView::NewData(_) => true,
        ProtocolView::RegisterData(ids) => ids_of(ids).len() > 0,
        ProtocolView::GetData(ids) => ids_of(ids).len() > 0,
        ProtocolView::DeleteData(ids) => ids_of(ids).len() > 0,
    }
}

// ======================================
// => Text of requests
// ======================================
/// The characters of "NewData".
pub open spec fn kw_new_data() -> Seq<char> {
    seq!['N', 'e', 'w', 'D', 'a', 't', 'a']
}

/// The characters of "NewChannel".
pub open spec fn kw_new_channel() -> Seq<char> {
    seq!['N', 'e', 'w', 'C', 'h', 'a', 'n', 'n', 'e', 'l']
}

/// The characters of "NewMessage".
pub open spec fn kw_new_message() -> Seq<char> {
    seq!['N', 'e', 'w', 'M', 'e', 's', 's', 'a', 'g', 'e']
}

/// The characters of "NewUser".
pub open spec fn kw_new_user() -> Seq<char> {
    seq!['N', 'e', 'w', 'U', 's', 'e', 'r']
}

/// The characters of "RegisterData".
pub open spec fn kw_register_data() -> Seq<char> {
    seq!['R', 'e', 'g', 'i', 's', 't', 'e', 'r', 'D', 'a', 't', 'a']
}

/// The characters of "GetData".
pub open spec fn kw_get_data() -> Seq<char> {
    seq!['G', 'e', 't', 'D', 'a', 't', 'a']
}

/// The characters of "DeleteData".
pub open spec fn kw_delete_data() -> Seq<char> {
    seq!['D', 'e', 'l', 'e', 't', 'e', 'D', 'a', 't', 'a']
}

/// The characters of "Channel".
pub open spec fn kw_channel() -> Seq<char> {
    seq!['C', 'h', 'a', 'n', 'n', 'e', 'l']
}

/// The characters of "Message".
pub open spec fn kw_message() -> Seq<char> {
    seq!['M', 'e', 's', 's', 'a', 'g', 'e']
}

/// The characters of "User".
pub open spec fn kw_user() -> Seq<char> {
    seq!['U', 's', 'e', 'r']
}

/// The characters of "name=".
pub open spec fn eq_name() -> Seq<char> {
    seq!['n', 'a', 'm', 'e', '=']
}

/// The characters of "desc=".
pub open spec fn eq_desc() -> Seq<char> {
    seq!['d', 'e', 's', 'c', '=']
}

/// The characters of "channel=".
pub open spec fn eq_channel() -> Seq<char> {
    seq!['c', 'h', 'a', 'n', 'n', 'e', 'l', '=']
}

/// The characters of "timestamp=".
pub open spec fn eq_timestamp() -> Seq<char> {
    seq!['t', 'i', 'm', 'e', 's', 't', 'a', 'm', 'p', '=']
}

/// The characters of "user=".
pub open spec fn eq_user() -> Seq<char> {
    seq!['u', 's', 'e', 'r', '=']
}

/// The characters of "content_length=".
pub open spec fn eq_content_length() -> Seq<char> {
    seq!['c', 'o', 'n', 't', 'e', 'n', 't', '_', 'l', 'e', 'n', 'g', 't', 'h', '=']
}

/// The characters of "content=".
pub open spec fn eq_content() -> Seq<char> {
    seq!['c', 'o', 'n', 't', 'e', 'n', 't', '=']
}

/// The characters of "username=".
pub open spec fn eq_username() -> Seq<char> {
    seq!['u', 's', 'e', 'r', 'n', 'a', 'm', 'e', '=']
}

/// A field as written on the wire: its name with '=', then the value in
/// square brackets.
pub open spec fn field_chars(name_eq: Seq<char>, value: Seq<char>) -> Seq<char> {
    name_eq + seq!['['] + value + seq![']']
}

/// The number of bytes of the UTF-8 encoding of `s`, what `str::len` counts.
pub open spec fn byte_len(s: Seq<char>) -> nat {
    encode_utf8(s).len()
}

/// The text of a request to create data, after its "NewData " word.
pub open spec fn new_data_body(d: NewDataView) -> Seq<char> {
    match d {
        NewDataView::Channel { name, desc } => kw_new_channel() + seq![' '] + field_chars(
            eq_name(),
            name,
        ) + seq![' '] + field_chars(eq_desc(), desc),
        NewDataView::Message { channel, timestamp, user, content } => kw_new_message() + seq![' ']
            + field_chars(eq_channel(), decimal(channel as nat)) + seq![' '] + field_chars(
            eq_timestamp(),
            decimal(timestamp as nat),
        ) + seq![' '] + field_chars(eq_user(), decimal(user as nat)) + seq![' '] + field_chars(
            eq_content_length(),
            decimal(byte_len(content)),
        ) + seq![' '] + field_chars(eq_content(), content),
        NewDataView::User { username } => kw_new_user() + seq![' '] + field_chars(
            eq_username(),
            username,
        ),
    }
}

/// The text of a request to create data.
pub open spec fn new_data_chars(d: NewDataView) -> Seq<char> {
    kw_new_data() + seq![' '] + new_data_body(d)
}

/// The ids after the first, each after a space.
pub open spec fn more_ids(ids: Seq<u64>) -> Seq<char>
    decreases ids.len(),
{
    if ids.len() == 0 {
        Seq::empty()
    } else {
        more_ids(ids.drop_last()) + seq![' '] + decimal(ids.last() as nat)
    }
}

/// The bracketed list of ids: the first, then the others each after a space.
pub open spec fn id_list_chars(ids: Seq<u64>) -> Seq<char> {
    seq!['['] + decimal(ids[0] as nat) + more_ids(ids.drop_first()) + seq![']']
}

/// The text of a list of ids: its kind, (for messages the channel,) the
/// number of ids, and the bracketed ids.
pub open spec fn ids_chars(v: IdsView) -> Seq<char> {
    match v {
        IdsView::Channel { ids } => kw_channel() + seq![' '] + decimal(ids.len()) + seq![' ']
            + id_list_chars(ids),
        IdsView::User { ids } => kw_user() + seq![' '] + decimal(ids.len()) + seq![' ']
            + id_list_chars(ids),
        IdsView::Message { channel, ids } => kw_message() + seq![' '] + decimal(channel as nat)
            + seq![' '] + decimal(ids.len()) + seq![' '] + id_list_chars(ids),
    }
}

/// The text of a request.
pub open spec fn protocol_chars(p: ProtocolView) -> Seq<char> {
    kw_protocol() + seq![' '] + match p {
        ProtocolView::NewData(d) => new_data_chars(d),
        ProtocolView::RegisterData(ids) => kw_register_data() + seq![' '] + ids_chars(ids),
        ProtocolView::GetData(ids) => kw_get_data() + seq![' '] + ids_chars(ids),
        ProtocolView::DeleteData(ids) => kw_delete_data() + seq![' '] + ids_chars(ids),
    }
}


// ======================================
// => Reading requests
// ======================================
/// The bytes of a single space.
pub open spec fn sp_bytes() -> Seq<u8> {
    lit(seq![' '])
}

/// The number that `s[a..b]` holds as a 64-bit id.
pub open spec fn spec_id(s: Seq<u8>, a: int, b: int) -> Option<nat> {
    parse_unsigned(s.subrange(a, b), u64::MAX as nat)
}

/// The number that `s[a..b]` holds as a length.
pub open spec fn spec_length(s: Seq<u8>, a: int, b: int) -> Option<nat> {
    parse_unsigned(s.subrange(a, b), usize::MAX as nat)
}

/// Reading `NewChannel name=[NAME] desc=[DESC]` at `pos`.
pub open spec fn spec_decode_new_channel(s: Seq<u8>, pos: int) -> Result<(int, NewDataView), DecodeError> {
    match spec_tag(s, pos, lit(kw_new_channel())) {
        None => Err(DecodeError::Mismatch),
        Some(p1) => match spec_tag(s, p1, sp_bytes()) {
            None => Err(DecodeError::Mismatch),
            Some(p2) => match spec_field(s, p2, lit(eq_name())) {
                None => Err(DecodeError::Mismatch),
                Some((ns, ne, p3)) => match spec_tag(s, p3, sp_bytes()) {
                    None => Err(DecodeError::Mismatch),
                    Some(p4) => match spec_field(s, p4, lit(eq_desc())) {
                        None => Err(DecodeError::Mismatch),
                        Some((ds, de, p5)) => match spec_text(s, ns, ne) {
                            None => Err(DecodeError::Malformed),
                            Some(name) => match spec_text(s, ds, de) {
                                None => Err(DecodeError::Malformed),
                                Some(desc) => Ok((p5, NewDataView::Channel { name, desc })),
                            },
                        },
                    },
                },
            },
        },
    }
}

/// Reading `NewUser username=[NAME]` at `pos`.
pub open spec fn spec_decode_new_user(s: Seq<u8>, pos: int) -> Result<(int, NewDataView), DecodeError> {
    match spec_tag(s, pos, lit(kw_new_user())) {
        None => Err(DecodeError::Mismatch),
        Some(p1) => match spec_tag(s, p1, sp_bytes()) {
            None => Err(DecodeError::Mismatch),
            Some(p2) => match spec_field(s, p2, lit(eq_username())) {
                None => Err(DecodeError::Mismatch),
                Some((us, ue, p3)) => match spec_text(s, us, ue) {
                    None => Err(DecodeError::Malformed),
                    Some(username) => Ok((p3, NewDataView::User { username })),
                },
            },
        },
    }
}

/// The fields of a message request up to its content: where the channel,
/// time, user and length values lie, and where the content field starts.
pub open spec fn spec_message_head(s: Seq<u8>, pos: int) -> Option<
    (int, int, int, int, int, int, int, int, int),
> {
    match spec_tag(s, pos, lit(kw_new_message())) {
        None => None,
        Some(p1) => match spec_tag(s, p1, sp_bytes()) {
            None => None,
            Some(p2) => match spec_field(s, p2, lit(eq_channel())) {
                None => None,
                Some((cs, ce, p3)) => match spec_tag(s, p3, sp_bytes()) {
                    None => None,
                    Some(p4) => match spec_field(s, p4, lit(eq_timestamp())) {
                        None => None,
                        Some((ts, te, p5)) => match spec_tag(s, p5, sp_bytes()) {
                            None => None,
                            Some(p6) => match spec_field(s, p6, lit(eq_user())) {
                                None => None,
                                Some((us, ue, p7)) => match spec_tag(s, p7, sp_bytes()) {
                                    None => None,
                                    Some(p8) => match spec_field(
                                        s,
                                        p8,
                                        lit(eq_content_length()),
                                    ) {
                                        None => None,
                                        Some((ls, le, p9)) => match spec_tag(s, p9, sp_bytes()) {
                                            None => None,
                                            Some(p10) => Some((cs, ce, ts, te, us, ue, ls, le, p10)),
                                        },
                                    },
                                },
                            },
                        },
                    },
                },
            },
        },
    }
}

/// The content field `content=[...]` at `pos`, holding exactly `len` bytes:
/// where the content starts, and where the field ends.
pub open spec fn spec_content_field(s: Seq<u8>, pos: int, len: nat) -> Option<(int, int)> {
    match spec_tag(s, pos, lit(eq_content())) {
        None => None,
        Some(p) => if 0 <= p < s.len() && s[p] == 91 && p + 1 + len < s.len() && s[p + 1
            + len] == 93 {
            Some((p + 1, p + 1 + len + 1))
        } else {
            None
        },
    }
}

/// Reading `NewMessage channel=[C] timestamp=[T] user=[U] content_length=[L] content=[...]`
/// at `pos`: the length is read before the content field, the other
/// numbers and the content's text after it.
pub open spec fn spec_decode_new_message(s: Seq<u8>, pos: int) -> Result<(int, NewDataView), DecodeError> {
    match spec_message_head(s, pos) {
        None => Err(DecodeError::Mismatch),
        Some((cs, ce, ts, te, us, ue, ls, le, p10)) => match spec_length(s, ls, le) {
            None => Err(DecodeError::Malformed),
            Some(len) => match spec_content_field(s, p10, len) {
                None => Err(DecodeError::Mismatch),
                Some((start, end)) => match spec_id(s, cs, ce) {
                    None => Err(DecodeError::Malformed),
                    Some(channel) => match spec_id(s, ts, te) {
                        None => Err(DecodeError::Malformed),
                        Some(timestamp) => match spec_id(s, us, ue) {
                            None => Err(DecodeError::Malformed),
                            Some(user) => match spec_text(s, start, start + len) {
                                None => Err(DecodeError::Malformed),
                                Some(content) => Ok(
                                    (
                                        end,
                                        NewDataView::Message {
                                            channel: channel as u64,
                                            timestamp: timestamp as u64,
                                            user: user as u64,
                                            content,
                                        },
                                    ),
                                ),
                            },
                        },
                    },
                },
            },
        },
    }
}

/// Reading `NewData ` at `pos` followed by a channel, message or user
/// request, tried in that order; a malformed field stops the reading.
pub open spec fn spec_decode_new_data(s: Seq<u8>, pos: int) -> Result<(int, NewDataView), DecodeError> {
    match spec_tag(s, pos, lit(kw_new_data())) {
        None => Err(DecodeError::Mismatch),
        Some(p1) => match spec_tag(s, p1, sp_bytes()) {
            None => Err(DecodeError::Mismatch),
            Some(p2) => match spec_decode_new_channel(s, p2) {
                Err(DecodeError::Mismatch) => match spec_decode_new_message(s, p2) {
                    Err(DecodeError::Mismatch) => match spec_decode_new_user(s, p2) {
                        Err(DecodeError::Mismatch) => Err(DecodeError::Mismatch),
                        other => other,
                    },
                    other => other,
                },
                other => other,
            },
        },
    }
}

/// Reading further ids at `pos` until `acc` holds `len` of them: each is
/// a space and a number running to the next space or ']'.
pub open spec fn spec_more_ids(s: Seq<u8>, pos: int, acc: Seq<u64>, len: nat) -> Result<
    (int, Seq<u64>),
    DecodeError,
>
    decreases len - acc.len(),
{
    if acc.len() >= len {
        Ok((pos, acc))
    } else {
        match spec_tag(s, pos, sp_bytes()) {
            None => Err(DecodeError::Mismatch),
            Some(p) => {
                let e = scan_to(s, p, 32, 93);
                match spec_id(s, p, e) {
                    None => Err(DecodeError::Malformed),
                    Some(id) => spec_more_ids(s, e, acc.push(id as u64), len),
                }
            },
        }
    }
}

/// Reading the ids at `pos`: the first runs to the next space or ']',
/// then the others until there are `len` of them (at least one is read).
pub open spec fn spec_id_list(s: Seq<u8>, pos: int, len: nat) -> Result<(int, Seq<u64>), DecodeError> {
    let e = scan_to(s, pos, 32, 93);
    match spec_id(s, pos, e) {
        None => Err(DecodeError::Malformed),
        Some(first) => spec_more_ids(s, e, seq![first as u64], len),
    }
}

/// Reading `KIND N ` at `pos` followed by the ids, for channel or user ids.
pub open spec fn spec_decode_plain_ids(s: Seq<u8>, pos: int, kind: Seq<char>) -> Result<
    (int, Seq<u64>),
    DecodeError,
> {
    match spec_tag(s, pos, lit(kind)) {
        None => Err(DecodeError::Mismatch),
        Some(p1) => match spec_tag(s, p1, sp_bytes()) {
            None => Err(DecodeError::Mismatch),
            Some(p2) => {
                let w = scan_to(s, p2, 32, 32);
                match spec_tag(s, w, sp_bytes()) {
                    None => Err(DecodeError::Mismatch),
                    Some(p3) => match spec_length(s, p2, w) {
                        None => Err(DecodeError::Malformed),
                        Some(len) => spec_id_list(s, p3, len),
                    },
                }
            },
        }
    }
}

/// Reading `CHANNEL N ` at `pos` followed by the ids, for message ids;
/// the first word is read as the channel without a kind word before it.
pub open spec fn spec_decode_message_ids(s: Seq<u8>, pos: int) -> Result<(int, IdsView), DecodeError> {
    let w1 = scan_to(s, pos, 32, 32);
    match spec_tag(s, w1, sp_bytes()) {
        None => Err(DecodeError::Mismatch),
        Some(p1) => {
            let w2 = scan_to(s, p1, 32, 32);
            match spec_tag(s, w2, sp_bytes()) {
                None => Err(DecodeError::Mismatch),
                Some(p2) => match spec_id(s, pos, w1) {
                    None => Err(DecodeError::Malformed),
                    Some(channel) => match spec_length(s, p1, w2) {
                        None => Err(DecodeError::Malformed),
                        Some(len) => match spec_id_list(s, p2, len) {
                            Ok((e, ids)) => Ok((e, IdsView::Message { channel: channel as u64, ids })),
                            Err(err) => Err(err),
                        },
                    },
                },
            }
        },
    }
}

/// Reading a list of ids at `pos`: channel ids, user ids, then message
/// ids are tried in that order; a malformed field stops the reading.
pub open spec fn spec_decode_ids(s: Seq<u8>, pos: int) -> Result<(int, IdsView), DecodeError> {
    match spec_decode_plain_ids(s, pos, kw_channel()) {
        Ok((e, ids)) => Ok((e, IdsView::Channel { ids })),
        Err(DecodeError::Mismatch) => match spec_decode_plain_ids(s, pos, kw_user()) {
            Ok((e, ids)) => Ok((e, IdsView::User { ids })),
            Err(DecodeError::Mismatch) => match spec_decode_message_ids(s, pos) {
                Err(DecodeError::Mismatch) => Err(DecodeError::Mismatch),
                other => other,
            },
            Err(err) => Err(err),
        },
        Err(err) => Err(err),
    }
}

/// Reading `KIND ` at `pos` followed by a list of ids.
pub open spec fn spec_decode_kind_ids(s: Seq<u8>, pos: int, kind: Seq<char>) -> Result<
    (int, IdsView),
    DecodeError,
> {
    match spec_tag(s, pos, lit(kind)) {
        None => Err(DecodeError::Mismatch),
        Some(p1) => match spec_tag(s, p1, sp_bytes()) {
            None => Err(DecodeError::Mismatch),
            Some(p2) => spec_decode_ids(s, p2),
        },
    }
}

/// Reading a request from the start of `s`: `speakrs `, then a register,
/// get, delete or create request, tried in that order. Where none of them
/// fits, no kind of request that can be read is left.
#[verifier::opaque]
pub open spec fn spec_decode(s: Seq<u8>) -> Result<(int, ProtocolView), DecodeError> {
    match spec_tag(s, 0, lit(kw_protocol())) {
        None => Err(DecodeError::Mismatch),
        Some(p1) => match spec_tag(s, p1, sp_bytes()) {
            None => Err(DecodeError::Mismatch),
            Some(p2) => match spec_decode_kind_ids(s, p2, kw_register_data()) {
                Ok((e, ids)) => Ok((e, ProtocolView::RegisterData(ids))),
                Err(DecodeError::Mismatch) => match spec_decode_kind_ids(s, p2, kw_get_data()) {
                    Ok((e, ids)) => Ok((e, ProtocolView::GetData(ids))),
                    Err(DecodeError::Mismatch) => match spec_decode_kind_ids(
                        s,
                        p2,
                        kw_delete_data(),
                    ) {
                        Ok((e, ids)) => Ok((e, ProtocolView::DeleteData(ids))),
                        Err(DecodeError::Mismatch) => match spec_decode_new_data(s, p2) {
                            Ok((e, d)) => Ok((e, ProtocolView::NewData(d))),
                            Err(DecodeError::Mismatch) => Err(DecodeError::Unsupported),
                            Err(err) => Err(err),
                        },
                        Err(err) => Err(err),
                    },
                    Err(err) => Err(err),
                },
                Err(err) => Err(err),
            },
        },
    }
}


// ======================================
// => Reading requests: executable
// ======================================
/// The result of reading, with its value taken by `f`.
pub open spec fn read_as<T, V>(r: Result<(usize, T), DecodeError>, f: spec_fn(T) -> V) -> Result<
    (int, V),
    DecodeError,
> {
    match r {
        Ok((e, v)) => Ok((e as int, f(v))),
        Err(err) => Err(err),
    }
}

/// Where the single space at `pos` ends, if there is one.
fn tag_space(s: &[u8], pos: usize) -> (r: Option<usize>)
    requires
        pos <= s@.len(),
    ensures
        opt_pos(r) == spec_tag(s@, pos as int, sp_bytes()),
        r matches Some(e) ==> e <= s@.len(),
{
    proof {
        reveal_strlit(" ");
        assert(" "@ =~= seq![' ']);
    }
    tag(s, pos, " ")
}

impl NewChannelProtocol {
    /// Reads `NewChannel name=[NAME] desc=[DESC]` at `pos`.
    pub fn decode(s: &[u8], pos: usize) -> (r: Result<(usize, NewChannelProtocol), DecodeError>)
        requires
            pos <= s@.len(),
        ensures
            read_as(r, |v: NewChannelProtocol| NewDataView::Channel { name: v.name@, desc: v.desc@ })
                == spec_decode_new_channel(s@, pos as int),
            r matches Ok((e, _)) ==> e <= s@.len(),
    {
        proof {
            reveal_strlit("NewChannel");
            reveal_strlit("name=");
            reveal_strlit("desc=");
            assert("NewChannel"@ =~= kw_new_channel());
            assert("name="@ =~= eq_name());
            assert("desc="@ =~= eq_desc());
        }
        let p1 = match tag(s, pos, "NewChannel") {
            Some(p) => p,
            None => return Err(DecodeError::Mismatch),
        };
        let p2 = match tag_space(s, p1) {
            Some(p) => p,
            None => return Err(DecodeError::Mismatch),
        };
        let (ns, ne, p3) = match field(s, p2, "name=") {
            Some(f) => f,
            None => return Err(DecodeError::Mismatch),
        };
        let p4 = match tag_space(s, p3) {
            Some(p) => p,
            None => return Err(DecodeError::Mismatch),
        };
        let (ds, de, p5) = match field(s, p4, "desc=") {
            Some(f) => f,
            None => return Err(DecodeError::Mismatch),
        };
        let name = match text(s, ns, ne) {
            Some(t) => t,
            None => return Err(DecodeError::Malformed),
        };
        let desc = match text(s, ds, de) {
            Some(t) => t,
            None => return Err(DecodeError::Malformed),
        };
        Ok((p5, NewChannelProtocol { name, desc }))
    }
}

impl NewUserProtocol {
    /// Reads `NewUser username=[NAME]` at `pos`.
    pub fn decode(s: &[u8], pos: usize) -> (r: Result<(usize, NewUserProtocol), DecodeError>)
        requires
            pos <= s@.len(),
        ensures
            read_as(r, |v: NewUserProtocol| NewDataView::User { username: v.username@ })
                == spec_decode_new_user(s@, pos as int),
            r matches Ok((e, _)) ==> e <= s@.len(),
    {
        proof {
            reveal_strlit("NewUser");
            reveal_strlit("username=");
            assert("NewUser"@ =~= kw_new_user());
            assert("username="@ =~= eq_username());
        }
        let p1 = match tag(s, pos, "NewUser") {
            Some(p) => p,
            None => return Err(DecodeError::Mismatch),
        };
        let p2 = match tag_space(s, p1) {
            Some(p) => p,
            None => return Err(DecodeError::Mismatch),
        };
        let (us, ue, p3) = match field(s, p2, "username=") {
            Some(f) => f,
            None => return Err(DecodeError::Mismatch),
        };
        let username = match text(s, us, ue) {
            Some(t) => t,
            None => return Err(DecodeError::Malformed),
        };
        Ok((p3, NewUserProtocol { username }))
    }
}

/// Reads the fields of a message request up to its content; see
/// `spec_message_head`.
fn message_head(s: &[u8], pos: usize) -> (r: Option<
    (usize, usize, usize, usize, usize, usize, usize, usize, usize),
>)
    requires
        pos <= s@.len(),
    ensures
        match r {
            Some((cs, ce, ts, te, us, ue, ls, le, p10)) => spec_message_head(s@, pos as int) == Some(
                (
                    cs as int,
                    ce as int,
                    ts as int,
                    te as int,
                    us as int,
                    ue as int,
                    ls as int,
                    le as int,
                    p10 as int,
                ),
            ) && cs <= ce <= s@.len() && ts <= te <= s@.len() && us <= ue <= s@.len() && ls <= le
                <= s@.len() && p10 <= s@.len(),
            None => spec_message_head(s@, pos as int) is None,
        },
{
    proof {
        reveal_strlit("NewMessage");
        reveal_strlit("channel=");
        reveal_strlit("timestamp=");
        reveal_strlit("user=");
        reveal_strlit("content_length=");
        assert("NewMessage"@ =~= kw_new_message());
        assert("channel="@ =~= eq_channel());
        assert("timestamp="@ =~= eq_timestamp());
        assert("user="@ =~= eq_user());
        assert("content_length="@ =~= eq_content_length());
    }
    let p1 = tag(s, pos, "NewMessage")?;
    let p2 = tag_space(s, p1)?;
    let (cs, ce, p3) = field(s, p2, "channel=")?;
    let p4 = tag_space(s, p3)?;
    let (ts, te, p5) = field(s, p4, "timestamp=")?;
    let p6 = tag_space(s, p5)?;
    let (us, ue, p7) = field(s, p6, "user=")?;
    let p8 = tag_space(s, p7)?;
    let (ls, le, p9) = field(s, p8, "content_length=")?;
    let p10 = tag_space(s, p9)?;
    Some((cs, ce, ts, te, us, ue, ls, le, p10))
}

impl NewMessageProtocol {
    /// Reads `NewMessage channel=[C] timestamp=[T] user=[U] content_length=[L] content=[...]`
    /// at `pos`; the content is exactly `L` bytes.
    pub fn decode(s: &[u8], pos: usize) -> (r: Result<(usize, NewMessageProtocol), DecodeError>)
        requires
            pos <= s@.len(),
        ensures
            read_as(
                r,
                |v: NewMessageProtocol|
                    NewDataView::Message {
                        channel: v.channel,
                        timestamp: v.timestamp,
                        user: v.user,
                        content: v.content@,
                    },
            ) == spec_decode_new_message(s@, pos as int),
            r matches Ok((e, _)) ==> e <= s@.len(),
    {
        proof {
            reveal_strlit("content=");
            assert("content="@ =~= eq_content());
        }
        let (cs, ce, ts, te, us, ue, ls, le, p10) = match message_head(s, pos) {
            Some(h) => h,
            None => return Err(DecodeError::Mismatch),
        };
        let len = match number(s, ls, le, usize::MAX as u64) {
            Some(n) => n as usize,
            None => return Err(DecodeError::Malformed),
        };
        let p11 = match tag(s, p10, "content=") {
            Some(p) => p,
            None => return Err(DecodeError::Mismatch),
        };
        if !(p11 < s.len() && s[p11] == 91 && len < s.len() - p11 - 1 && s[p11 + 1 + len] == 93) {
            return Err(DecodeError::Mismatch);
        }
        let start = p11 + 1;
        let end = p11 + 1 + len + 1;
        let channel = match number(s, cs, ce, u64::MAX) {
            Some(n) => n,
            None => return Err(DecodeError::Malformed),
        };
        let timestamp = match number(s, ts, te, u64::MAX) {
            Some(n) => n,
            None => return Err(DecodeError::Malformed),
        };
        let user = match number(s, us, ue, u64::MAX) {
            Some(n) => n,
            None => return Err(DecodeError::Malformed),
        };
        let content = match text(s, start, start + len) {
            Some(t) => t,
            None => return Err(DecodeError::Malformed),
        };
        Ok((end, NewMessageProtocol { channel, timestamp, user, content }))
    }
}

impl NewDataProtocol {
    /// Reads `NewData ` at `pos` followed by a channel, message or user
    /// request, tried in that order.
    pub fn decode(s: &[u8], pos: usize) -> (r: Result<(usize, NewDataProtocol), DecodeError>)
        requires
            pos <= s@.len(),
        ensures
            read_as(r, |v: NewDataProtocol| v@) == spec_decode_new_data(s@, pos as int),
            r matches Ok((e, _)) ==> e <= s@.len(),
    {
        proof {
            reveal_strlit("NewData");
            assert("NewData"@ =~= kw_new_data());
        }
        let p1 = match tag(s, pos, "NewData") {
            Some(p) => p,
            None => return Err(DecodeError::Mismatch),
        };
        let p2 = match tag_space(s, p1) {
            Some(p) => p,
            None => return Err(DecodeError::Mismatch),
        };
        match NewChannelProtocol::decode(s, p2) {
            Ok((e, c)) => return Ok((e, NewDataProtocol::Channel(c))),
            Err(DecodeError::Mismatch) => {},
            Err(err) => return Err(err),
        }
        match NewMessageProtocol::decode(s, p2) {
            Ok((e, m)) => return Ok((e, NewDataProtocol::Message(m))),
            Err(DecodeError::Mismatch) => {},
            Err(err) => return Err(err),
        }
        match NewUserProtocol::decode(s, p2) {
            Ok((e, u)) => Ok((e, NewDataProtocol::User(u))),
            Err(err) => Err(err),
        }
    }
}

/// Reads the ids at `pos`: the first, then the others until there are
/// `len` of them; see `spec_id_list`.
fn id_list(s: &[u8], pos: usize, len: usize) -> (r: Result<(usize, Vec<u64>), DecodeError>)
    requires
        pos <= s@.len(),
    ensures
        read_as(r, |v: Vec<u64>| v@) == spec_id_list(s@, pos as int, len as nat),
        r matches Ok((e, _)) ==> e <= s@.len(),
{
    let e0 = scan(s, pos, 32, 93);
    let first = match number(s, pos, e0, u64::MAX) {
        Some(n) => n,
        None => return Err(DecodeError::Malformed),
    };
    let mut ids: Vec<u64> = Vec::new();
    ids.push(first);
    let mut p = e0;
    while ids.len() < len
        invariant
            p <= s@.len(),
            spec_id_list(s@, pos as int, len as nat) == spec_more_ids(s@, p as int, ids@, len as nat),
        decreases s@.len() - p,
    {
        let q = match tag_space(s, p) {
            Some(q) => q,
            None => return Err(DecodeError::Mismatch),
        };
        let e = scan(s, q, 32, 93);
        let id = match number(s, q, e, u64::MAX) {
            Some(n) => n,
            None => return Err(DecodeError::Malformed),
        };
        ids.push(id);
        p = e;
    }
    Ok((p, ids))
}

/// Reads `KIND N ` at `pos` followed by the ids; see `spec_decode_plain_ids`.
fn plain_ids(s: &[u8], pos: usize, kind: &str) -> (r: Result<(usize, Vec<u64>), DecodeError>)
    requires
        pos <= s@.len(),
    ensures
        read_as(r, |v: Vec<u64>| v@) == spec_decode_plain_ids(s@, pos as int, kind@),
        r matches Ok((e, _)) ==> e <= s@.len(),
{
    let p1 = match tag(s, pos, kind) {
        Some(p) => p,
        None => return Err(DecodeError::Mismatch),
    };
    let p2 = match tag_space(s, p1) {
        Some(p) => p,
        None => return Err(DecodeError::Mismatch),
    };
    let w = scan(s, p2, 32, 32);
    let p3 = match tag_space(s, w) {
        Some(p) => p,
        None => return Err(DecodeError::Mismatch),
    };
    let len = match number(s, p2, w, usize::MAX as u64) {
        Some(n) => n as usize,
        None => return Err(DecodeError::Malformed),
    };
    id_list(s, p3, len)
}

impl ChannelIdsProtocol {
    /// Reads `Channel N [IDS...` at `pos`.
    pub fn decode(s: &[u8], pos: usize) -> (r: Result<(usize, ChannelIdsProtocol), DecodeError>)
        requires
            pos <= s@.len(),
        ensures
            read_as(r, |v: ChannelIdsProtocol| v.0@) == spec_decode_plain_ids(s@, pos as int, kw_channel()),
            r matches Ok((e, _)) ==> e <= s@.len(),
    {
        proof {
            reveal_strlit("Channel");
            assert("Channel"@ =~= kw_channel());
        }
        match plain_ids(s, pos, "Channel") {
            Ok((e, ids)) => Ok((e, ChannelIdsProtocol(ids))),
            Err(err) => Err(err),
        }
    }
}

impl UserIdsProtocol {
    /// Reads `User N [IDS...` at `pos`.
    pub fn decode(s: &[u8], pos: usize) -> (r: Result<(usize, UserIdsProtocol), DecodeError>)
        requires
            pos <= s@.len(),
        ensures
            read_as(r, |v: UserIdsProtocol| v.0@) == spec_decode_plain_ids(s@, pos as int, kw_user()),
            r matches Ok((e, _)) ==> e <= s@.len(),
    {
        proof {
            reveal_strlit("User");
            assert("User"@ =~= kw_user());
        }
        match plain_ids(s, pos, "User") {
            Ok((e, ids)) => Ok((e, UserIdsProtocol(ids))),
            Err(err) => Err(err),
        }
    }
}

impl MessageIdsProtocol {
    /// Reads `CHANNEL N [IDS...` at `pos`; see `spec_decode_message_ids`.
    pub fn decode(s: &[u8], pos: usize) -> (r: Result<(usize, MessageIdsProtocol), DecodeError>)
        requires
            pos <= s@.len(),
        ensures
            read_as(r, |v: MessageIdsProtocol| v@) == spec_decode_message_ids(s@, pos as int),
            r matches Ok((e, _)) ==> e <= s@.len(),
    {
        let w1 = scan(s, pos, 32, 32);
        let p1 = match tag_space(s, w1) {
            Some(p) => p,
            None => return Err(DecodeError::Mismatch),
        };
        let w2 = scan(s, p1, 32, 32);
        let p2 = match tag_space(s, w2) {
            Some(p) => p,
            None => return Err(DecodeError::Mismatch),
        };
        let channel = match number(s, pos, w1, u64::MAX) {
            Some(n) => n,
            None => return Err(DecodeError::Malformed),
        };
        let len = match number(s, p1, w2, usize::MAX as u64) {
            Some(n) => n as usize,
            None => return Err(DecodeError::Malformed),
        };
        match id_list(s, p2, len) {
            Ok((e, ids)) => Ok((e, MessageIdsProtocol(channel, ids))),
            Err(err) => Err(err),
        }
    }
}

/// Reads a list of ids at `pos`: channel, user, then message ids are tried
/// in that order; see `spec_decode_ids`.
fn decode_ids(s: &[u8], pos: usize) -> (r: Result<
    (usize, Option<ChannelIdsProtocol>, Option<UserIdsProtocol>, Option<MessageIdsProtocol>),
    DecodeError,
>)
    requires
        pos <= s@.len(),
    ensures
        match r {
            Ok((e, c, u, m)) => {
                &&& c matches Some(c) ==> u is None && m is None && spec_decode_ids(s@, pos as int)
                    == Ok::<(int, IdsView), DecodeError>((e as int, c@))
                &&& u matches Some(u) ==> c is None && m is None && spec_decode_ids(s@, pos as int)
                    == Ok::<(int, IdsView), DecodeError>((e as int, u@))
                &&& m matches Some(m) ==> c is None && u is None && spec_decode_ids(s@, pos as int)
                    == Ok::<(int, IdsView), DecodeError>((e as int, m@))
                &&& c is Some || u is Some || m is Some
                &&& e <= s@.len()
            },
            Err(err) => spec_decode_ids(s@, pos as int) == Err::<(int, IdsView), DecodeError>(err),
        },
{
    match ChannelIdsProtocol::decode(s, pos) {
        Ok((e, c)) => return Ok((e, Some(c), None, None)),
        Err(DecodeError::Mismatch) => {},
        Err(err) => return Err(err),
    }
    match UserIdsProtocol::decode(s, pos) {
        Ok((e, u)) => return Ok((e, None, Some(u), None)),
        Err(DecodeError::Mismatch) => {},
        Err(err) => return Err(err),
    }
    match MessageIdsProtocol::decode(s, pos) {
        Ok((e, m)) => Ok((e, None, None, Some(m))),
        Err(err) => Err(err),
    }
}


impl RegisterDataProtocol {
    /// Reads `RegisterData ` at `pos` followed by a list of ids.
    pub fn decode(s: &[u8], pos: usize) -> (r: Result<(usize, RegisterDataProtocol), DecodeError>)
        requires
            pos <= s@.len(),
        ensures
            read_as(r, |v: RegisterDataProtocol| v@) == spec_decode_kind_ids(s@, pos as int, kw_register_data()),
            r matches Ok((e, _)) ==> e <= s@.len(),
    {
        proof {
            reveal_strlit("RegisterData");
            assert("RegisterData"@ =~= kw_register_data());
        }
        let p1 = match tag(s, pos, "RegisterData") {
            Some(p) => p,
            None => return Err(DecodeError::Mismatch),
        };
        let p2 = match tag_space(s, p1) {
            Some(p) => p,
            None => return Err(DecodeError::Mismatch),
        };
        match decode_ids(s, p2) {
            Ok((e, Some(c), _, _)) => Ok((e, RegisterDataProtocol::Channel(c))),
            Ok((e, None, Some(u), _)) => Ok((e, RegisterDataProtocol::User(u))),
            Ok((e, None, None, Some(m))) => Ok((e, RegisterDataProtocol::Message(m))),
            Ok((_, None, None, None)) => Err(DecodeError::Mismatch),
            Err(err) => Err(err),
        }
    }
}

impl GetDataProtocol {
    /// Reads `GetData ` at `pos` followed by a list of ids.
    pub fn decode(s: &[u8], pos: usize) -> (r: Result<(usize, GetDataProtocol), DecodeError>)
        requires
            pos <= s@.len(),
        ensures
            read_as(r, |v: GetDataProtocol| v@) == spec_decode_kind_ids(s@, pos as int, kw_get_data()),
            r matches Ok((e, _)) ==> e <= s@.len(),
    {
        proof {
            reveal_strlit("GetData");
            assert("GetData"@ =~= kw_get_data());
        }
        let p1 = match tag(s, pos, "GetData") {
            Some(p) => p,
            None => return Err(DecodeError::Mismatch),
        };
        let p2 = match tag_space(s, p1) {
            Some(p) => p,
            None => return Err(DecodeError::Mismatch),
        };
        match decode_ids(s, p2) {
            Ok((e, Some(c), _, _)) => Ok((e, GetDataProtocol::Channel(c))),
            Ok((e, None, Some(u), _)) => Ok((e, GetDataProtocol::User(u))),
            Ok((e, None, None, Some(m))) => Ok((e, GetDataProtocol::Message(m))),
            Ok((_, None, None, None)) => Err(DecodeError::Mismatch),
            Err(err) => Err(err),
        }
    }
}

impl DeleteDataProtocol {
    /// Reads `DeleteData ` at `pos` followed by a list of ids.
    pub fn decode(s: &[u8], pos: usize) -> (r: Result<(usize, DeleteDataProtocol), DecodeError>)
        requires
            pos <= s@.len(),
        ensures
            read_as(r, |v: DeleteDataProtocol| v@) == spec_decode_kind_ids(s@, pos as int, kw_delete_data()),
            r matches Ok((e, _)) ==> e <= s@.len(),
    {
        proof {
            reveal_strlit("DeleteData");
            assert("DeleteData"@ =~= kw_delete_data());
        }
        let p1 = match tag(s, pos, "DeleteData") {
            Some(p) => p,
            None => return Err(DecodeError::Mismatch),
        };
        let p2 = match tag_space(s, p1) {
            Some(p) => p,
            None => return Err(DecodeError::Mismatch),
        };
        match decode_ids(s, p2) {
            Ok((e, Some(c), _, _)) => Ok((e, DeleteDataProtocol::Channel(c))),
            Ok((e, None, Some(u), _)) => Ok((e, DeleteDataProtocol::User(u))),
            Ok((e, None, None, Some(m))) => Ok((e, DeleteDataProtocol::Message(m))),
            Ok((_, None, None, None)) => Err(DecodeError::Mismatch),
            Err(err) => Err(err),
        }
    }
}

impl Protocol {
    /// Reads a request from the start of `s`: `speakrs `, then a register,
    /// get, delete or create request, tried in that order. Returns where the
    /// request ends; where none fits, `Unsupported`.
    pub fn decode(s: &[u8]) -> (r: Result<(usize, Protocol), DecodeError>)
        ensures
            read_as(r, |v: Protocol| v@) == spec_decode(s@),
            r matches Ok((e, _)) ==> e <= s@.len(),
    {
        proof {
            reveal(spec_decode);
            reveal_strlit("speakrs");
            assert("speakrs"@ =~= kw_protocol());
        }
        let p1 = match tag(s, 0, "speakrs") {
            Some(p) => p,
            None => return Err(DecodeError::Mismatch),
        };
        let p2 = match tag_space(s, p1) {
            Some(p) => p,
            None => return Err(DecodeError::Mismatch),
        };
        match RegisterDataProtocol::decode(s, p2) {
            Ok((e, v)) => return Ok((e, Protocol::RegisterData(v))),
            Err(DecodeError::Mismatch) => {},
            Err(err) => return Err(err),
        }
        match GetDataProtocol::decode(s, p2) {
            Ok((e, v)) => return Ok((e, Protocol::GetData(v))),
            Err(DecodeError::Mismatch) => {},
            Err(err) => return Err(err),
        }
        match DeleteDataProtocol::decode(s, p2) {
            Ok((e, v)) => return Ok((e, Protocol::DeleteData(v))),
            Err(DecodeError::Mismatch) => {},
            Err(err) => return Err(err),
        }
        match NewDataProtocol::decode(s, p2) {
            Ok((e, v)) => Ok((e, Protocol::NewData(v))),
            Err(DecodeError::Mismatch) => Err(DecodeError::Unsupported),
            Err(err) => Err(err),
        }
    }
}


/// Data left after a request that is neither nothing nor the end character
/// alone.
pub open spec fn trailing(rest: Seq<u8>) -> bool {
    rest.len() > 0 && rest != seq![10u8]
}

impl Protocol {
    /// Reads a request from the start of `request`: the request, and whether
    /// data other than the end character follows it.
    pub fn parse_request(request: &[u8]) -> (r: Result<(Protocol, bool), DecodeError>)
        ensures
            match spec_decode(request@) {
                Ok((e, v)) => r matches Ok((p, t)) && p@ == v && t == trailing(
                    request@.subrange(e, request@.len() as int),
                ),
                Err(err) => r == Err::<(Protocol, bool), DecodeError>(err),
            },
    {
        match Protocol::decode(request) {
            Err(err) => Err(err),
            Ok((e, p)) => {
                let n = request.len();
                let t = if e == n {
                    false
                } else if e + 1 == n && request[e] == 10u8 {
                    assert(request@.subrange(e as int, n as int) =~= seq![10u8]);
                    false
                } else {
                    if e + 1 == n {
                        assert(request@.subrange(e as int, n as int)[0] == request@[e as int]);
                    } else {
                        assert(request@.subrange(e as int, n as int).len() != 1);
                    }
                    true
                };
                Ok((p, t))
            },
        }
    }

    /// Whether every list of ids in the request is non-empty, so that it can
    /// be written.
    pub fn is_writable(&self) -> (r: bool)
        ensures
            r == writable(self@),
    {
        match self {
            Protocol::NewData(_) => true,
            Protocol::RegisterData(RegisterDataProtocol::Message(m)) => m.1.len() > 0,
            Protocol::RegisterData(RegisterDataProtocol::User(u)) => u.0.len() > 0,
            Protocol::RegisterData(RegisterDataProtocol::Channel(c)) => c.0.len() > 0,
            Protocol::GetData(GetDataProtocol::Message(m)) => m.1.len() > 0,
            Protocol::GetData(GetDataProtocol::User(u)) => u.0.len() > 0,
            Protocol::GetData(GetDataProtocol::Channel(c)) => c.0.len() > 0,
            Protocol::DeleteData(DeleteDataProtocol::Message(m)) => m.1.len() > 0,
            Protocol::DeleteData(DeleteDataProtocol::User(u)) => u.0.len() > 0,
            Protocol::DeleteData(DeleteDataProtocol::Channel(c)) => c.0.len() > 0,
        }
    }

    /// The request as sent: its text followed by the end character. Every
    /// list of ids in it must be non-empty.
    pub fn frame(&self) -> (r: String)
        requires
            writable(self@),
        ensures
            r@ == protocol_chars(self@).push(end_char()),
    {
        proof {
            reveal_strlit("\n");
        }
        let mut out = self.encode();
        out.append("\n");
        assert(out@ =~= protocol_chars(self@).push(end_char()));
        out
    }
}

// ======================================
// => Reading back what was written
// ======================================
/// Requests to create data that are read back as written: no ']' in a name,
/// description or user name (those fields end at the first ']'), and a
/// content whose byte length fits a machine integer.
pub open spec fn readable_back(d: NewDataView) -> bool {
    match d {
        NewDataView::Channel { name, desc } => !name.contains(']') && !desc.contains(']'),
        NewDataView::Message { content, .. } => byte_len(content) <= usize::MAX,
        NewDataView::User { username } => !username.contains(']'),
    }
}

proof fn lemma_punctuation()
    ensures
        lit(seq![' ']) == seq![32u8],
        lit(seq!['[']) == seq![91u8],
        lit(seq![']']) == seq![93u8],
{
    lemma_lit_ascii_char(' ');
    lemma_lit_ascii_char('[');
    lemma_lit_ascii_char(']');
}

/// A written field `NAME=[TEXT]` is read back, with the text.
proof fn lemma_text_field(s: Seq<u8>, pos: int, name_eq: Seq<char>, v: Seq<char>)
    requires
        occurs(s, pos, lit(field_chars(name_eq, v))),
        !v.contains(']'),
    ensures
        spec_field(s, pos, lit(name_eq)) == Some(
            (
                pos + lit(name_eq).len() + 1,
                pos + lit(name_eq).len() + 1 + lit(v).len(),
                pos + lit(field_chars(name_eq, v)).len(),
            ),
        ),
        spec_text(s, pos + lit(name_eq).len() + 1, pos + lit(name_eq).len() + 1 + lit(v).len())
            == Some(v),
{
    broadcast use lemma_lit_concat;

    lemma_punctuation();
    lemma_lit_no_close(v);
    assert(lit(field_chars(name_eq, v)) == lit(name_eq) + seq![91u8] + lit(v) + seq![93u8]);
    lemma_field_occurs(s, pos, lit(name_eq), lit(v));
    lemma_text_occurs(s, pos + lit(name_eq).len() + 1, v);
}

/// A written field `NAME=[N]` with `N` in decimal is read back, with the
/// number.
proof fn lemma_number_field(s: Seq<u8>, pos: int, name_eq: Seq<char>, n: nat, max: nat)
    requires
        occurs(s, pos, lit(field_chars(name_eq, decimal(n)))),
        n <= max,
    ensures
        spec_field(s, pos, lit(name_eq)) == Some(
            (
                pos + lit(name_eq).len() + 1,
                pos + lit(name_eq).len() + 1 + lit(decimal(n)).len(),
                pos + lit(field_chars(name_eq, decimal(n))).len(),
            ),
        ),
        parse_unsigned(
            s.subrange(
                pos + lit(name_eq).len() + 1,
                pos + lit(name_eq).len() + 1 + lit(decimal(n)).len(),
            ),
            max,
        ) == Some(n),
{
    broadcast use lemma_lit_concat;

    lemma_punctuation();
    crate::text::lemma_decimal_digits(n);
    assert(!decimal(n).contains(']')) by {
        if decimal(n).contains(']') {
            let k = choose|k: int| 0 <= k < decimal(n).len() && decimal(n)[k] == ']';
            assert('0' <= decimal(n)[k] <= '9');
        }
    }
    lemma_lit_no_close(decimal(n));
    assert(lit(field_chars(name_eq, decimal(n))) == lit(name_eq) + seq![91u8] + lit(decimal(n))
        + seq![93u8]);
    lemma_field_occurs(s, pos, lit(name_eq), lit(decimal(n)));
    lemma_number_occurs(s, pos + lit(name_eq).len() + 1, n, max);
}

/// A written channel request is read back.
proof fn lemma_read_new_channel(s: Seq<u8>, pos: int, name: Seq<char>, desc: Seq<char>)
    requires
        occurs(s, pos, lit(new_data_body(NewDataView::Channel { name, desc }))),
        !name.contains(']'),
        !desc.contains(']'),
    ensures
        spec_decode_new_channel(s, pos) == Ok::<(int, NewDataView), DecodeError>(
            (
                pos + lit(new_data_body(NewDataView::Channel { name, desc })).len(),
                NewDataView::Channel { name, desc },
            ),
        ),
{
    broadcast use lemma_lit_concat;

    lemma_punctuation();
    let kw = lit(kw_new_channel());
    let sp = lit(seq![' ']);
    let f1 = lit(field_chars(eq_name(), name));
    let f2 = lit(field_chars(eq_desc(), desc));
    assert(lit(new_data_body(NewDataView::Channel { name, desc })) == kw + sp + f1 + sp + f2);
    lemma_occurs_split(s, pos, kw + sp + f1 + sp, f2);
    lemma_occurs_split(s, pos, kw + sp + f1, sp);
    lemma_occurs_split(s, pos, kw + sp, f1);
    lemma_occurs_split(s, pos, kw, sp);
    let p1 = pos + kw.len();
    let p2 = p1 + 1;
    let p3 = p2 + f1.len();
    let p4 = p3 + 1;
    lemma_tag_occurs(s, pos, kw);
    lemma_tag_occurs(s, p1, sp);
    lemma_text_field(s, p2, eq_name(), name);
    lemma_tag_occurs(s, p3, sp);
    lemma_text_field(s, p4, eq_desc(), desc);
}

/// A written user request is read back.
proof fn lemma_read_new_user(s: Seq<u8>, pos: int, username: Seq<char>)
    requires
        occurs(s, pos, lit(new_data_body(NewDataView::User { username }))),
        !username.contains(']'),
    ensures
        spec_decode_new_user(s, pos) == Ok::<(int, NewDataView), DecodeError>(
            (
                pos + lit(new_data_body(NewDataView::User { username })).len(),
                NewDataView::User { username },
            ),
        ),
{
    broadcast use lemma_lit_concat;

    lemma_punctuation();
    let kw = lit(kw_new_user());
    let sp = lit(seq![' ']);
    let f1 = lit(field_chars(eq_username(), username));
    assert(lit(new_data_body(NewDataView::User { username })) == kw + sp + f1);
    lemma_occurs_split(s, pos, kw + sp, f1);
    lemma_occurs_split(s, pos, kw, sp);
    lemma_tag_occurs(s, pos, kw);
    lemma_tag_occurs(s, pos + kw.len(), sp);
    lemma_text_field(s, pos + kw.len() + 1, eq_username(), username);
}

/// A single byte written at `q` is there.
proof fn lemma_occurs_byte(s: Seq<u8>, q: int, b: u8)
    requires
        occurs(s, q, seq![b]),
    ensures
        0 <= q < s.len(),
        s[q] == b,
{
    assert(s.subrange(q, q + 1)[0] == s[q]);
}

/// The bytes of the fields of a message request before its content.
pub open spec fn message_head_bytes(channel: u64, timestamp: u64, user: u64, len: nat) -> Seq<u8> {
    let sp = lit(seq![' ']);
    lit(kw_new_message()) + sp + lit(field_chars(eq_channel(), decimal(channel as nat))) + sp + lit(
        field_chars(eq_timestamp(), decimal(timestamp as nat)),
    ) + sp + lit(field_chars(eq_user(), decimal(user as nat))) + sp + lit(
        field_chars(eq_content_length(), decimal(len)),
    ) + sp
}

/// A written message request is its head, then its content field.
proof fn lemma_message_bytes(channel: u64, timestamp: u64, user: u64, content: Seq<char>)
    ensures
        lit(new_data_body(NewDataView::Message { channel, timestamp, user, content }))
            == message_head_bytes(channel, timestamp, user, byte_len(content)) + lit(eq_content())
            + seq![91u8] + lit(content) + seq![93u8],
{
    broadcast use lemma_lit_concat;

    lemma_punctuation();
}

/// The written head of a message request is read back, with its numbers.
#[verifier::rlimit(40)]
#[verifier::spinoff_prover]
proof fn lemma_read_message_head(s: Seq<u8>, pos: int, channel: u64, timestamp: u64, user: u64, len: nat)
    requires
        occurs(s, pos, message_head_bytes(channel, timestamp, user, len)),
        len <= usize::MAX,
    ensures
        spec_message_head(s, pos) matches Some((cs, ce, ts, te, us, ue, ls, le, p10)) && spec_id(
            s,
            cs,
            ce,
        ) == Some(channel as nat) && spec_id(s, ts, te) == Some(timestamp as nat) && spec_id(
            s,
            us,
            ue,
        ) == Some(user as nat) && spec_length(s, ls, le) == Some(len) && p10 == pos
            + message_head_bytes(channel, timestamp, user, len).len(),
{
    lemma_punctuation();
    let kw = lit(kw_new_message());
    let sp = lit(seq![' ']);
    let f1 = lit(field_chars(eq_channel(), decimal(channel as nat)));
    let f2 = lit(field_chars(eq_timestamp(), decimal(timestamp as nat)));
    let f3 = lit(field_chars(eq_user(), decimal(user as nat)));
    let f4 = lit(field_chars(eq_content_length(), decimal(len)));
    lemma_occurs_split(s, pos, kw + sp + f1 + sp + f2 + sp + f3 + sp + f4, sp);
    lemma_occurs_split(s, pos, kw + sp + f1 + sp + f2 + sp + f3 + sp, f4);
    lemma_occurs_split(s, pos, kw + sp + f1 + sp + f2 + sp + f3, sp);
    lemma_occurs_split(s, pos, kw + sp + f1 + sp + f2 + sp, f3);
    lemma_occurs_split(s, pos, kw + sp + f1 + sp + f2, sp);
    lemma_occurs_split(s, pos, kw + sp + f1 + sp, f2);
    lemma_occurs_split(s, pos, kw + sp + f1, sp);
    lemma_occurs_split(s, pos, kw + sp, f1);
    lemma_occurs_split(s, pos, kw, sp);
    let p1 = pos + kw.len();
    let p2 = p1 + 1;
    let p3 = p2 + f1.len();
    let p4 = p3 + 1;
    let p5 = p4 + f2.len();
    let p6 = p5 + 1;
    let p7 = p6 + f3.len();
    let p8 = p7 + 1;
    let p9 = p8 + f4.len();
    lemma_tag_occurs(s, pos, kw);
    lemma_tag_occurs(s, p1, sp);
    lemma_number_field(s, p2, eq_channel(), channel as nat, u64::MAX as nat);
    lemma_tag_occurs(s, p3, sp);
    lemma_number_field(s, p4, eq_timestamp(), timestamp as nat, u64::MAX as nat);
    lemma_tag_occurs(s, p5, sp);
    lemma_number_field(s, p6, eq_user(), user as nat, u64::MAX as nat);
    lemma_tag_occurs(s, p7, sp);
    lemma_number_field(s, p8, eq_content_length(), len, usize::MAX as nat);
    lemma_tag_occurs(s, p9, sp);
}

/// A written message request is read back.
#[verifier::spinoff_prover]
proof fn lemma_read_new_message(
    s: Seq<u8>,
    pos: int,
    channel: u64,
    timestamp: u64,
    user: u64,
    content: Seq<char>,
)
    requires
        occurs(s, pos, lit(new_data_body(NewDataView::Message { channel, timestamp, user, content }))),
        byte_len(content) <= usize::MAX,
    ensures
        spec_decode_new_message(s, pos) == Ok::<(int, NewDataView), DecodeError>(
            (
                pos + lit(new_data_body(NewDataView::Message { channel, timestamp, user, content })).len(),
                NewDataView::Message { channel, timestamp, user, content },
            ),
        ),
{
    let len = byte_len(content);
    let head = message_head_bytes(channel, timestamp, user, len);
    let ec = lit(eq_content());
    let lc = lit(content);
    lemma_message_bytes(channel, timestamp, user, content);
    lemma_occurs_split(s, pos, head + ec + seq![91u8] + lc, seq![93u8]);
    lemma_occurs_split(s, pos, head + ec + seq![91u8], lc);
    lemma_occurs_split(s, pos, head + ec, seq![91u8]);
    lemma_occurs_split(s, pos, head, ec);
    lemma_read_message_head(s, pos, channel, timestamp, user, len);
    let p10 = pos + head.len();
    lemma_tag_occurs(s, p10, ec);
    lemma_occurs_byte(s, p10 + ec.len(), 91u8);
    lemma_occurs_byte(s, p10 + ec.len() + 1 + lc.len(), 93u8);
    assert(spec_content_field(s, p10, len) == Some(
        (p10 + ec.len() + 1, p10 + ec.len() + 1 + len + 1),
    ));
    lemma_text_occurs(s, p10 + ec.len() + 1, content);
}

/// Where the first `i + 1` characters of `x` are ASCII and `x` is written
/// at `pos`, the byte at `pos + i` is the code of `x[i]`.
proof fn lemma_lit_prefix_byte(s: Seq<u8>, pos: int, x: Seq<char>, i: int)
    requires
        occurs(s, pos, lit(x)),
        0 <= i < x.len(),
        is_ascii_chars(x.take(i + 1)),
    ensures
        0 <= pos + i < s.len(),
        s[pos + i] == x[i] as u8,
{
    assert(x =~= x.take(i + 1) + x.skip(i + 1));
    lemma_lit_concat(x.take(i + 1), x.skip(i + 1));
    lemma_lit_ascii(x.take(i + 1));
    assert(s.subrange(pos, pos + lit(x).len())[i] == s[pos + i]);
    assert(lit(x)[i] == lit(x.take(i + 1))[i]);
}

/// Where a written request of another kind stands, no channel request is
/// read, and no message request where a user request stands.
#[verifier::spinoff_prover]
proof fn lemma_other_kinds(s: Seq<u8>, pos: int, d: NewDataView)
    requires
        occurs(s, pos, lit(new_data_body(d))),
    ensures
        !(d is Channel) ==> spec_decode_new_channel(s, pos) == Err::<(int, NewDataView), DecodeError>(
            DecodeError::Mismatch,
        ),
        d is User ==> spec_decode_new_message(s, pos) == Err::<(int, NewDataView), DecodeError>(
            DecodeError::Mismatch,
        ),
{
    let x = new_data_body(d);
    let nc = kw_new_channel();
    let nm = kw_new_message();
    assert(nc.take(4) =~= seq!['N', 'e', 'w', 'C']);
    assert(nm.take(4) =~= seq!['N', 'e', 'w', 'M']);
    assert(lit(nc).subrange(0, lit(nc).len() as int) =~= lit(nc));
    assert(lit(nm).subrange(0, lit(nm).len() as int) =~= lit(nm));
    lemma_lit_prefix_byte(lit(nc), 0, nc, 3);
    lemma_lit_prefix_byte(lit(nm), 0, nm, 3);
    match d {
        NewDataView::Channel { .. } => {},
        NewDataView::Message { .. } => {
            assert(x.take(4) =~= seq!['N', 'e', 'w', 'M']);
            lemma_lit_prefix_byte(s, pos, x, 3);
            lemma_tag_differs(s, pos, lit(nc), 3);
        },
        NewDataView::User { .. } => {
            assert(x.take(4) =~= seq!['N', 'e', 'w', 'U']);
            lemma_lit_prefix_byte(s, pos, x, 3);
            lemma_tag_differs(s, pos, lit(nc), 3);
            lemma_tag_differs(s, pos, lit(nm), 3);
        },
    }
}

/// A written request to create data is read back.
proof fn lemma_read_new_data(s: Seq<u8>, pos: int, d: NewDataView)
    requires
        occurs(s, pos, lit(new_data_chars(d))),
        readable_back(d),
    ensures
        spec_decode_new_data(s, pos) == Ok::<(int, NewDataView), DecodeError>(
            (pos + lit(new_data_chars(d)).len(), d),
        ),
{
    let kw = lit(kw_new_data());
    let sp = lit(seq![' ']);
    let body = lit(new_data_body(d));
    assert(lit(new_data_chars(d)) == kw + sp + body) by {
        broadcast use lemma_lit_concat;

    }
    lemma_occurs_split(s, pos, kw + sp, body);
    lemma_occurs_split(s, pos, kw, sp);
    lemma_tag_occurs(s, pos, kw);
    lemma_tag_occurs(s, pos + kw.len(), sp);
    let p2 = pos + kw.len() + sp.len();
    lemma_other_kinds(s, p2, d);
    match d {
        NewDataView::Channel { name, desc } => {
            lemma_read_new_channel(s, p2, name, desc);
        },
        NewDataView::Message { channel, timestamp, user, content } => {
            lemma_read_new_message(s, p2, channel, timestamp, user, content);
        },
        NewDataView::User { username } => {
            lemma_read_new_user(s, p2, username);
        },
    }
}

/// No list of ids of a kind is read where the first byte differs from the
/// kind's word.
proof fn lemma_kind_mismatch(s: Seq<u8>, pos: int, kind: Seq<char>)
    requires
        0 <= pos < s.len(),
        is_ascii_chars(kind.take(1)),
        kind.len() > 0,
        s[pos] != kind[0] as u8,
    ensures
        spec_decode_kind_ids(s, pos, kind) == Err::<(int, IdsView), DecodeError>(
            DecodeError::Mismatch,
        ),
{
    assert(lit(kind).subrange(0, lit(kind).len() as int) =~= lit(kind));
    lemma_lit_prefix_byte(lit(kind), 0, kind, 0);
    lemma_tag_differs(s, pos, lit(kind), 0);
}

/// Reading back a written request to create data, followed by anything:
/// the request is read whole, and nothing after it is taken. (Lists of ids
/// are not read back: their first id is read from its '[' on, which is no
/// number.)
#[verifier::rlimit(40)]
#[verifier::spinoff_prover]
pub proof fn law_new_data_read_back(d: NewDataView, rest: Seq<u8>)
    requires
        readable_back(d),
    ensures
        spec_decode(lit(protocol_chars(ProtocolView::NewData(d))) + rest) == Ok::<
            (int, ProtocolView),
            DecodeError,
        >((lit(protocol_chars(ProtocolView::NewData(d))).len() as int, ProtocolView::NewData(d))),
{
    let w = lit(protocol_chars(ProtocolView::NewData(d)));
    let s = w + rest;
    let kw = lit(kw_protocol());
    let sp = lit(seq![' ']);
    let nd = lit(new_data_chars(d));
    assert(w == kw + sp + nd) by {
        broadcast use lemma_lit_concat;

        assert(protocol_chars(ProtocolView::NewData(d)) == kw_protocol() + seq![' ']
            + new_data_chars(d));
    }
    assert(s.subrange(0, w.len() as int) =~= w);
    lemma_occurs_split(s, 0, kw + sp, nd);
    lemma_occurs_split(s, 0, kw, sp);
    lemma_tag_occurs(s, 0, kw);
    lemma_tag_occurs(s, kw.len() as int, sp);
    let p2 = (kw.len() + sp.len()) as int;
    assert(new_data_chars(d).take(1) =~= seq!['N']);
    lemma_lit_prefix_byte(s, p2, new_data_chars(d), 0);
    assert(kw_register_data().take(1) =~= seq!['R']);
    assert(kw_get_data().take(1) =~= seq!['G']);
    assert(kw_delete_data().take(1) =~= seq!['D']);
    lemma_kind_mismatch(s, p2, kw_register_data());
    lemma_kind_mismatch(s, p2, kw_get_data());
    lemma_kind_mismatch(s, p2, kw_delete_data());
    lemma_read_new_data(s, p2, d);
    assert(spec_decode(s) == Ok::<(int, ProtocolView), DecodeError>(
        (w.len() as int, ProtocolView::NewData(d)),
    )) by {
        reveal(spec_decode);
    }
}

/// A written list of channel or user ids is refused as malformed: its first
/// id is read from the '[' on.
#[verifier::spinoff_prover]
proof fn lemma_plain_ids_refused(s: Seq<u8>, q: int, kind: Seq<char>, ids: Seq<u64>)
    requires
        occurs(
            s,
            q,
            lit(kind + seq![' '] + decimal(ids.len()) + seq![' '] + id_list_chars(ids)),
        ),
        ids.len() > 0,
    ensures
        spec_decode_plain_ids(s, q, kind) == Err::<(int, Seq<u64>), DecodeError>(
            DecodeError::Malformed,
        ),
{
    lemma_punctuation();
    let k = lit(kind);
    let sp = lit(seq![' ']);
    let d = lit(decimal(ids.len()));
    let l = lit(id_list_chars(ids));
    assert(lit(kind + seq![' '] + decimal(ids.len()) + seq![' '] + id_list_chars(ids)) == k + sp
        + d + sp + l) by {
        broadcast use lemma_lit_concat;

    }
    lemma_occurs_split(s, q, k + sp + d + sp, l);
    lemma_occurs_split(s, q, k + sp + d, sp);
    lemma_occurs_split(s, q, k + sp, d);
    lemma_occurs_split(s, q, k, sp);
    let p2 = q + k.len() + 1;
    lemma_tag_occurs(s, q, k);
    lemma_tag_occurs(s, q + k.len(), sp);
    lemma_decimal_ascii(ids.len());
    assert(k + sp + d + sp == (k + sp) + (d + sp));
    lemma_occurs_split(s, q, k + sp, d + sp);
    lemma_scan_to_delim(s, p2, d, 32, 32);
    let w = p2 + d.len();
    lemma_tag_occurs(s, w, sp);
    let p3 = w + 1;
    assert(id_list_chars(ids).take(1) =~= seq!['[']);
    lemma_lit_prefix_byte(s, p3, id_list_chars(ids), 0);
    lemma_scan_from(s, p3 + 1, 32, 93);
    let e = scan_to(s, p3, 32, 93);
    lemma_not_a_number(s, p3, e, u64::MAX as nat);
}

/// Where a written list of message ids stands, no channel or user ids are
/// read, and the message ids are refused as malformed: the kind's word is
/// read as the channel.
#[verifier::spinoff_prover]
proof fn lemma_message_ids_refused(s: Seq<u8>, q: int, channel: u64, ids: Seq<u64>)
    requires
        occurs(s, q, lit(ids_chars(IdsView::Message { channel, ids }))),
    ensures
        spec_decode_plain_ids(s, q, kw_channel()) == Err::<(int, Seq<u64>), DecodeError>(
            DecodeError::Mismatch,
        ),
        spec_decode_plain_ids(s, q, kw_user()) == Err::<(int, Seq<u64>), DecodeError>(
            DecodeError::Mismatch,
        ),
        spec_decode_message_ids(s, q) == Err::<(int, IdsView), DecodeError>(DecodeError::Malformed),
{
    lemma_punctuation();
    let m = kw_message();
    let k = lit(m);
    let sp = lit(seq![' ']);
    let c = lit(decimal(channel as nat));
    let x = ids_chars(IdsView::Message { channel, ids });
    assert(lit(x) == k + sp + c + sp + lit(decimal(ids.len()) + seq![' '] + id_list_chars(ids))) by {
        broadcast use lemma_lit_concat;

        assert(x == m + seq![' '] + decimal(channel as nat) + seq![' '] + (decimal(ids.len())
            + seq![' '] + id_list_chars(ids)));
    }
    let tail = lit(decimal(ids.len()) + seq![' '] + id_list_chars(ids));
    lemma_occurs_split(s, q, k + sp + c + sp, tail);
    lemma_occurs_split(s, q, k + sp + c, sp);
    lemma_occurs_split(s, q, k + sp, c);
    lemma_occurs_split(s, q, k, sp);
    assert(is_ascii_chars(m));
    lemma_lit_ascii(m);
    assert(forall|i: int| 0 <= i < m.len() ==> #[trigger] m[i] != ' ');
    assert(k + sp + c + sp == (k + sp) + (c + sp));
    lemma_occurs_split(s, q, k + sp, c + sp);
    lemma_scan_to_delim(s, q, k, 32, 32);
    let w1 = q + k.len();
    lemma_tag_occurs(s, w1, sp);
    let p1 = w1 + 1;
    lemma_decimal_ascii(channel as nat);
    lemma_scan_to_delim(s, p1, c, 32, 32);
    let w2 = p1 + c.len();
    lemma_tag_occurs(s, w2, sp);
    assert(m.take(1) =~= seq!['M']);
    lemma_lit_prefix_byte(s, q, x, 0);
    assert(x.take(1) =~= seq!['M']);
    lemma_not_a_number(s, q, w1, u64::MAX as nat);
    let ch = kw_channel();
    let us = kw_user();
    assert(ch.take(1) =~= seq!['C']);
    assert(us.take(1) =~= seq!['U']);
    assert(lit(ch).subrange(0, lit(ch).len() as int) =~= lit(ch));
    assert(lit(us).subrange(0, lit(us).len() as int) =~= lit(us));
    lemma_lit_prefix_byte(lit(ch), 0, ch, 0);
    lemma_lit_prefix_byte(lit(us), 0, us, 0);
    lemma_tag_differs(s, q, lit(ch), 0);
    lemma_tag_differs(s, q, lit(us), 0);
}

/// A written, non-empty list of ids is refused as malformed.
proof fn lemma_ids_refused(s: Seq<u8>, q: int, v: IdsView)
    requires
        occurs(s, q, lit(ids_chars(v))),
        ids_of(v).len() > 0,
    ensures
        spec_decode_ids(s, q) == Err::<(int, IdsView), DecodeError>(DecodeError::Malformed),
{
    match v {
        IdsView::Channel { ids } => {
            lemma_plain_ids_refused(s, q, kw_channel(), ids);
        },
        IdsView::User { ids } => {
            let x = ids_chars(v);
            assert(x.take(1) =~= seq!['U']);
            lemma_lit_prefix_byte(s, q, x, 0);
            let ch = kw_channel();
            assert(ch.take(1) =~= seq!['C']);
            assert(lit(ch).subrange(0, lit(ch).len() as int) =~= lit(ch));
            lemma_lit_prefix_byte(lit(ch), 0, ch, 0);
            lemma_tag_differs(s, q, lit(ch), 0);
            lemma_plain_ids_refused(s, q, kw_user(), ids);
        },
        IdsView::Message { channel, ids } => {
            lemma_message_ids_refused(s, q, channel, ids);
        },
    }
}

/// A written, non-empty list of ids after the word `kind` is refused as
/// malformed.
proof fn lemma_kind_ids_refused(s: Seq<u8>, pos: int, kind: Seq<char>, v: IdsView)
    requires
        occurs(s, pos, lit(kind + seq![' '] + ids_chars(v))),
        ids_of(v).len() > 0,
    ensures
        spec_decode_kind_ids(s, pos, kind) == Err::<(int, IdsView), DecodeError>(
            DecodeError::Malformed,
        ),
{
    lemma_punctuation();
    let k = lit(kind);
    let sp = lit(seq![' ']);
    assert(lit(kind + seq![' '] + ids_chars(v)) == k + sp + lit(ids_chars(v))) by {
        broadcast use lemma_lit_concat;

    }
    lemma_occurs_split(s, pos, k + sp, lit(ids_chars(v)));
    lemma_occurs_split(s, pos, k, sp);
    lemma_tag_occurs(s, pos, k);
    lemma_tag_occurs(s, pos + k.len(), sp);
    lemma_ids_refused(s, pos + k.len() + 1, v);
}

/// Where the words `speakrs ` stand at the start of `s` and a request of
/// kind `kind` is refused as malformed after them (the earlier kinds not
/// being there), the whole request is refused as malformed.
proof fn lemma_decode_refused(s: Seq<u8>, kind: Seq<char>)
    requires
        spec_tag(s, 0, lit(kw_protocol())) == Some(lit(kw_protocol()).len() as int),
        spec_tag(s, lit(kw_protocol()).len() as int, sp_bytes()) == Some(
            (lit(kw_protocol()).len() + 1) as int,
        ),
        kind == kw_register_data() || kind == kw_get_data() || kind == kw_delete_data(),
        spec_decode_kind_ids(s, (lit(kw_protocol()).len() + 1) as int, kind) == Err::<
            (int, IdsView),
            DecodeError,
        >(DecodeError::Malformed),
        kind != kw_register_data() ==> spec_decode_kind_ids(
            s,
            (lit(kw_protocol()).len() + 1) as int,
            kw_register_data(),
        ) == Err::<(int, IdsView), DecodeError>(DecodeError::Mismatch),
        kind == kw_delete_data() ==> spec_decode_kind_ids(
            s,
            (lit(kw_protocol()).len() + 1) as int,
            kw_get_data(),
        ) == Err::<(int, IdsView), DecodeError>(DecodeError::Mismatch),
    ensures
        spec_decode(s) == Err::<(int, ProtocolView), DecodeError>(DecodeError::Malformed),
{
    reveal(spec_decode);
}

/// A written request of kind `kind` listing the ids `v`, followed by
/// anything, is refused as malformed.
#[verifier::rlimit(40)]
#[verifier::spinoff_prover]
proof fn lemma_request_refused(kind: Seq<char>, v: IdsView, rest: Seq<u8>)
    requires
        kind == kw_register_data() || kind == kw_get_data() || kind == kw_delete_data(),
        ids_of(v).len() > 0,
    ensures
        spec_decode(lit(kw_protocol() + seq![' '] + (kind + seq![' '] + ids_chars(v))) + rest)
            == Err::<(int, ProtocolView), DecodeError>(DecodeError::Malformed),
{
    let body = kind + seq![' '] + ids_chars(v);
    let w = lit(kw_protocol() + seq![' '] + body);
    let s = w + rest;
    let kw = lit(kw_protocol());
    let sp = lit(seq![' ']);
    assert(w == kw + sp + lit(body)) by {
        lemma_lit_concat(kw_protocol(), seq![' ']);
        lemma_lit_concat(kw_protocol() + seq![' '], body);
    }
    assert(s.subrange(0, w.len() as int) =~= w);
    lemma_occurs_split(s, 0, kw + sp, lit(body));
    lemma_occurs_split(s, 0, kw, sp);
    lemma_tag_occurs(s, 0, kw);
    lemma_tag_occurs(s, kw.len() as int, sp);
    let p2 = (kw.len() + sp.len()) as int;
    lemma_kind_ids_refused(s, p2, kind, v);
    assert(kw_register_data().take(1) =~= seq!['R']);
    assert(kw_get_data().take(1) =~= seq!['G']);
    assert(kw_delete_data().take(1) =~= seq!['D']);
    assert(body.take(1) =~= kind.take(1));
    lemma_lit_prefix_byte(s, p2, body, 0);
    if kind != kw_register_data() {
        lemma_kind_mismatch(s, p2, kw_register_data());
    }
    if kind == kw_delete_data() {
        lemma_kind_mismatch(s, p2, kw_get_data());
    }
    lemma_punctuation();
    lemma_decode_refused(s, kind);
}

/// Reading back a written request that lists ids (to register, get or
/// delete data), followed by anything: it is refused as malformed, since
/// the first id is read from its '[' on.
pub proof fn law_id_lists_refused(p: ProtocolView, rest: Seq<u8>)
    requires
        !(p is NewData),
        writable(p),
    ensures
        spec_decode(lit(protocol_chars(p)) + rest) == Err::<(int, ProtocolView), DecodeError>(
            DecodeError::Malformed,
        ),
{
    match p {
        ProtocolView::RegisterData(v) => {
            assert(protocol_chars(p) == kw_protocol() + seq![' '] + (kw_register_data() + seq![' ']
                + ids_chars(v)));
            lemma_request_refused(kw_register_data(), v, rest);
        },
        ProtocolView::GetData(v) => {
            assert(protocol_chars(p) == kw_protocol() + seq![' '] + (kw_get_data() + seq![' ']
                + ids_chars(v)));
            lemma_request_refused(kw_get_data(), v, rest);
        },
        ProtocolView::DeleteData(v) => {
            assert(protocol_chars(p) == kw_protocol() + seq![' '] + (kw_delete_data() + seq![' ']
                + ids_chars(v)));
            lemma_request_refused(kw_delete_data(), v, rest);
        },
        ProtocolView::NewData(_) => {},
    }
}

// ======================================
// => Constructors
// ======================================
impl Protocol {
    /// A request to create a channel named `name` with description `desc`.
    pub fn create_channel(name: String, desc: String) -> (r: Self)
        ensures
            r@ == ProtocolView::NewData(NewDataView::Channel { name: name@, desc: desc@ }),
    {
        Protocol::NewData(NewDataProtocol::Channel(NewChannelProtocol { name, desc }))
    }

    /// A request to create a message by `user` in `channel` at `timestamp`
    /// (milliseconds since the Unix epoch).
    pub fn send_message(channel: ChannelId, timestamp: u64, user: UserId, content: String) -> (r:
        Self)
        ensures
            r@ == ProtocolView::NewData(
                NewDataView::Message { channel, timestamp, user, content: content@ },
            ),
    {
        Protocol::NewData(
            NewDataProtocol::Message(NewMessageProtocol { channel, timestamp, user, content }),
        )
    }

    /// A request to create a user named `username`.
    pub fn add_user(username: String) -> (r: Self)
        ensures
            r@ == ProtocolView::NewData(NewDataView::User { username: username@ }),
    {
        Protocol::NewData(NewDataProtocol::User(NewUserProtocol { username }))
    }

    /// A request to register the messages `messages` of `channel`; there
    /// must be at least one.
    pub fn register_messages(channel: ChannelId, messages: Vec<MessageId>) -> (r: Self)
        requires
            messages@.len() > 0,
        ensures
            r@ == ProtocolView::RegisterData(IdsView::Message { channel, ids: messages@ }),
    {
        match RegisterDataProtocol::messages(channel, messages) {
            None => Protocol::RegisterData(RegisterDataProtocol::Channel(ChannelIdsProtocol(Vec::new()))),
            Some(x) => Protocol::RegisterData(x),
        }
    }

    /// A request to register the users `users`; there must be at least one.
    pub fn register_users(users: Vec<UserId>) -> (r: Self)
        requires
            users@.len() > 0,
        ensures
            r@ == ProtocolView::RegisterData(IdsView::User { ids: users@ }),
    {
        match RegisterDataProtocol::users(users) {
            None => Protocol::RegisterData(RegisterDataProtocol::Channel(ChannelIdsProtocol(Vec::new()))),
            Some(x) => Protocol::RegisterData(x),
        }
    }

    /// A request to register the channels `channels`; there must be at least one.
    pub fn register_channels(channels: Vec<ChannelId>) -> (r: Self)
        requires
            channels@.len() > 0,
        ensures
            r@ == ProtocolView::RegisterData(IdsView::Channel { ids: channels@ }),
    {
        match RegisterDataProtocol::channels(channels) {
            None => Protocol::RegisterData(RegisterDataProtocol::Channel(ChannelIdsProtocol(Vec::new()))),
            Some(x) => Protocol::RegisterData(x),
        }
    }

    /// A request to get the messages `messages` of `channel`; there must be
    /// at least one.
    pub fn get_message(channel: ChannelId, messages: Vec<MessageId>) -> (r: Self)
        requires
            messages@.len() > 0,
        ensures
            r@ == ProtocolView::GetData(IdsView::Message { channel, ids: messages@ }),
    {
        match GetDataProtocol::messages(channel, messages) {
            None => Protocol::GetData(GetDataProtocol::Channel(ChannelIdsProtocol(Vec::new()))),
            Some(x) => Protocol::GetData(x),
        }
    }

    /// A request to get the users `users`; there must be at least one.
    pub fn get_user(users: Vec<UserId>) -> (r: Self)
        requires
            users@.len() > 0,
        ensures
            r@ == ProtocolView::GetData(IdsView::User { ids: users@ }),
    {
        match GetDataProtocol::users(users) {
            None => Protocol::GetData(GetDataProtocol::Channel(ChannelIdsProtocol(Vec::new()))),
            Some(x) => Protocol::GetData(x),
        }
    }

    /// A request to get the channels `channels`; there must be at least one.
    pub fn get_channel(channels: Vec<ChannelId>) -> (r: Self)
        requires
            channels@.len() > 0,
        ensures
            r@ == ProtocolView::GetData(IdsView::Channel { ids: channels@ }),
    {
        match GetDataProtocol::channels(channels) {
            None => Protocol::GetData(GetDataProtocol::Channel(ChannelIdsProtocol(Vec::new()))),
            Some(x) => Protocol::GetData(x),
        }
    }
}

impl RegisterDataProtocol {
    /// The messages `messages` of `channel`; `None` when there are none.
    pub fn messages(channel_id: ChannelId, messages: Vec<MessageId>) -> (r: Option<Self>)
        ensures
            messages@.len() == 0 <==> r is None,
            r matches Some(x) ==> x@ == (IdsView::Message { channel: channel_id, ids: messages@ }),
    {
        if messages.len() == 0 {
            return None;
        }
        Some(RegisterDataProtocol::Message(MessageIdsProtocol(channel_id, messages)))
    }

    /// The users `users`; `None` when there are none.
    pub fn users(users: Vec<UserId>) -> (r: Option<Self>)
        ensures
            users@.len() == 0 <==> r is None,
            r matches Some(x) ==> x@ == (IdsView::User { ids: users@ }),
    {
        if users.len() == 0 {
            return None;
        }
        Some(RegisterDataProtocol::User(UserIdsProtocol(users)))
    }

    /// The channels `channels`; `None` when there are none.
    pub fn channels(channels: Vec<ChannelId>) -> (r: Option<Self>)
        ensures
            channels@.len() == 0 <==> r is None,
            r matches Some(x) ==> x@ == (IdsView::Channel { ids: channels@ }),
    {
        if channels.len() == 0 {
            return None;
        }
        Some(RegisterDataProtocol::Channel(ChannelIdsProtocol(channels)))
    }
}

impl GetDataProtocol {
    /// The messages `messages` of `channel`; `None` when there are none.
    pub fn messages(channel_id: ChannelId, messages: Vec<MessageId>) -> (r: Option<Self>)
        ensures
            messages@.len() == 0 <==> r is None,
            r matches Some(x) ==> x@ == (IdsView::Message { channel: channel_id, ids: messages@ }),
    {
        if messages.len() == 0 {
            return None;
        }
        Some(GetDataProtocol::Message(MessageIdsProtocol(channel_id, messages)))
    }

    /// The users `users`; `None` when there are none.
    pub fn users(users: Vec<UserId>) -> (r: Option<Self>)
        ensures
            users@.len() == 0 <==> r is None,
            r matches Some(x) ==> x@ == (IdsView::User { ids: users@ }),
    {
        if users.len() == 0 {
            return None;
        }
        Some(GetDataProtocol::User(UserIdsProtocol(users)))
    }

    /// The channels `channels`; `None` when there are none.
    pub fn channels(channels: Vec<ChannelId>) -> (r: Option<Self>)
        ensures
            channels@.len() == 0 <==> r is None,
            r matches Some(x) ==> x@ == (IdsView::Channel { ids: channels@ }),
    {
        if channels.len() == 0 {
            return None;
        }
        Some(GetDataProtocol::Channel(ChannelIdsProtocol(channels)))
    }
}


// ======================================
// => Writing requests
// ======================================
/// Appends `"name=[" value "]"` to `out`.
fn push_field(out: &mut String, name_eq: &str, value: &str)
    ensures
        final(out)@ == old(out)@ + field_chars(name_eq@, value@),
{
    proof {
        reveal_strlit("[");
        reveal_strlit("]");
    }
    out.append(name_eq);
    out.append("[");
    out.append(value);
    out.append("]");
    assert(out@ =~= old(out)@ + field_chars(name_eq@, value@));
}

/// Appends `"name=[" n "]"` with `n` in decimal to `out`.
fn push_number_field(out: &mut String, name_eq: &str, n: u64)
    ensures
        final(out)@ == old(out)@ + field_chars(name_eq@, decimal(n as nat)),
{
    proof {
        reveal_strlit("[");
        reveal_strlit("]");
    }
    out.append(name_eq);
    out.append("[");
    push_decimal(out, n);
    out.append("]");
    assert(out@ =~= old(out)@ + field_chars(name_eq@, decimal(n as nat)));
}

impl NewChannelProtocol {
    /// `NewChannel name=[NAME] desc=[DESC]`.
    pub fn encode(&self) -> (r: String)
        ensures
            r@ == new_data_body(NewDataView::Channel { name: self.name@, desc: self.desc@ }),
    {
        proof {
            reveal_strlit("NewChannel");
            reveal_strlit(" ");
            reveal_strlit("name=");
            reveal_strlit("desc=");
        }
        let mut out = String::from_str("NewChannel");
        out.append(" ");
        push_field(&mut out, "name=", self.name.as_str());
        out.append(" ");
        push_field(&mut out, "desc=", self.desc.as_str());
        assert(out@ =~= new_data_body(NewDataView::Channel { name: self.name@, desc: self.desc@ }));
        out
    }
}

impl NewMessageProtocol {
    /// `NewMessage channel=[C] timestamp=[T] user=[U] content_length=[L] content=[CONTENT]`,
    /// with `L` the number of bytes of the content.
    pub fn encode(&self) -> (r: String)
        ensures
            r@ == new_data_body(
                NewDataView::Message {
                    channel: self.channel,
                    timestamp: self.timestamp,
                    user: self.user,
                    content: self.content@,
                },
            ),
    {
        proof {
            reveal_strlit("NewMessage");
            reveal_strlit(" ");
            reveal_strlit("channel=");
            reveal_strlit("timestamp=");
            reveal_strlit("user=");
            reveal_strlit("content_length=");
            reveal_strlit("content=");
        }
        let mut out = String::from_str("NewMessage");
        out.append(" ");
        push_number_field(&mut out, "channel=", self.channel);
        out.append(" ");
        push_number_field(&mut out, "timestamp=", self.timestamp);
        out.append(" ");
        push_number_field(&mut out, "user=", self.user);
        out.append(" ");
        let len = str_byte_len(self.content.as_str());
        push_number_field(&mut out, "content_length=", len as u64);
        out.append(" ");
        push_field(&mut out, "content=", self.content.as_str());
        assert(out@ =~= new_data_body(
            NewDataView::Message {
                channel: self.channel,
                timestamp: self.timestamp,
                user: self.user,
                content: self.content@,
            },
        ));
        out
    }
}

impl NewUserProtocol {
    /// `NewUser username=[NAME]`.
    pub fn encode(&self) -> (r: String)
        ensures
            r@ == new_data_body(NewDataView::User { username: self.username@ }),
    {
        proof {
            reveal_strlit("NewUser");
            reveal_strlit(" ");
            reveal_strlit("username=");
        }
        let mut out = String::from_str("NewUser");
        out.append(" ");
        push_field(&mut out, "username=", self.username.as_str());
        assert(out@ =~= new_data_body(NewDataView::User { username: self.username@ }));
        out
    }
}

impl NewDataProtocol {
    /// `NewData ` followed by the request.
    pub fn encode(&self) -> (r: String)
        ensures
            r@ == new_data_chars(self@),
    {
        proof {
            reveal_strlit("NewData");
            reveal_strlit(" ");
        }
        let mut out = String::from_str("NewData");
        out.append(" ");
        let body = match self {
            NewDataProtocol::Message(protocol) => protocol.encode(),
            NewDataProtocol::User(protocol) => protocol.encode(),
            NewDataProtocol::Channel(protocol) => protocol.encode(),
        };
        out.append(body.as_str());
        assert(out@ =~= new_data_chars(self@));
        out
    }
}

/// Appends ` [ID0 ID1 ...]`'s bracketed part for `ids` to `out`.
fn push_id_list(out: &mut String, ids: &Vec<u64>)
    requires
        ids@.len() > 0,
    ensures
        final(out)@ == old(out)@ + id_list_chars(ids@),
{
    proof {
        reveal_strlit("[");
        reveal_strlit("]");
    }
    out.append("[");
    push_decimal(out, ids[0]);
    let ghost head = out@;
    let mut i: usize = 1;
    while i < ids.len()
        invariant
            1 <= i <= ids@.len(),
            out@ == head + more_ids(ids@.subrange(1, i as int)),
        decreases ids@.len() - i,
    {
        proof {
            reveal_strlit(" ");
        }
        out.append(" ");
        push_decimal(out, ids[i]);
        proof {
            assert(ids@.subrange(1, i + 1).drop_last() =~= ids@.subrange(1, i as int));
            assert(ids@.subrange(1, i + 1).last() == ids@[i as int]);
        }
        i = i + 1;
        assert(out@ =~= head + more_ids(ids@.subrange(1, i as int)));
    }
    out.append("]");
    assert(ids@.subrange(1, ids@.len() as int) =~= ids@.drop_first());
    assert(out@ =~= old(out)@ + id_list_chars(ids@));
}

impl ChannelIdsProtocol {
    /// `Channel N [ID0 ID1 ...]`; there must be at least one id.
    pub fn encode(&self) -> (r: String)
        requires
            self.0@.len() > 0,
        ensures
            r@ == ids_chars(self@),
    {
        proof {
            reveal_strlit("Channel");
            reveal_strlit(" ");
        }
        let mut out = String::from_str("Channel");
        out.append(" ");
        push_decimal(&mut out, self.0.len() as u64);
        out.append(" ");
        push_id_list(&mut out, &self.0);
        assert(out@ =~= ids_chars(self@));
        out
    }
}

impl UserIdsProtocol {
    /// `User N [ID0 ID1 ...]`; there must be at least one id.
    pub fn encode(&self) -> (r: String)
        requires
            self.0@.len() > 0,
        ensures
            r@ == ids_chars(self@),
    {
        proof {
            reveal_strlit("User");
            reveal_strlit(" ");
        }
        let mut out = String::from_str("User");
        out.append(" ");
        push_decimal(&mut out, self.0.len() as u64);
        out.append(" ");
        push_id_list(&mut out, &self.0);
        assert(out@ =~= ids_chars(self@));
        out
    }
}

impl MessageIdsProtocol {
    /// `Message CHANNEL N [ID0 ID1 ...]`; there must be at least one id.
    pub fn encode(&self) -> (r: String)
        requires
            self.1@.len() > 0,
        ensures
            r@ == ids_chars(self@),
    {
        proof {
            reveal_strlit("Message");
            reveal_strlit(" ");
        }
        let mut out = String::from_str("Message");
        out.append(" ");
        push_decimal(&mut out, self.0);
        out.append(" ");
        push_decimal(&mut out, self.1.len() as u64);
        out.append(" ");
        push_id_list(&mut out, &self.1);
        assert(out@ =~= ids_chars(self@));
        out
    }
}

impl RegisterDataProtocol {
    /// `RegisterData ` followed by the ids; there must be at least one id.
    pub fn encode(&self) -> (r: String)
        requires
            ids_of(self@).len() > 0,
        ensures
            r@ == kw_register_data() + seq![' '] + ids_chars(self@),
    {
        proof {
            reveal_strlit("RegisterData");
            reveal_strlit(" ");
        }
        let mut out = String::from_str("RegisterData");
        out.append(" ");
        let body = match self {
            RegisterDataProtocol::Message(protocol) => protocol.encode(),
            RegisterDataProtocol::User(protocol) => protocol.encode(),
            RegisterDataProtocol::Channel(protocol) => protocol.encode(),
        };
        out.append(body.as_str());
        assert(out@ =~= kw_register_data() + seq![' '] + ids_chars(self@));
        out
    }
}

impl GetDataProtocol {
    /// `GetData ` followed by the ids; there must be at least one id.
    pub fn encode(&self) -> (r: String)
        requires
            ids_of(self@).len() > 0,
        ensures
            r@ == kw_get_data() + seq![' '] + ids_chars(self@),
    {
        proof {
            reveal_strlit("GetData");
            reveal_strlit(" ");
        }
        let mut out = String::from_str("GetData");
        out.append(" ");
        let body = match self {
            GetDataProtocol::Message(protocol) => protocol.encode(),
            GetDataProtocol::User(protocol) => protocol.encode(),
            GetDataProtocol::Channel(protocol) => protocol.encode(),
        };
        out.append(body.as_str());
        assert(out@ =~= kw_get_data() + seq![' '] + ids_chars(self@));
        out
    }
}

impl DeleteDataProtocol {
    /// `DeleteData ` followed by the ids; there must be at least one id.
    pub fn encode(&self) -> (r: String)
        requires
            ids_of(self@).len() > 0,
        ensures
            r@ == kw_delete_data() + seq![' '] + ids_chars(self@),
    {
        proof {
            reveal_strlit("DeleteData");
            reveal_strlit(" ");
        }
        let mut out = String::from_str("DeleteData");
        out.append(" ");
        let body = match self {
            DeleteDataProtocol::Message(protocol) => protocol.encode(),
            DeleteDataProtocol::User(protocol) => protocol.encode(),
            DeleteDataProtocol::Channel(protocol) => protocol.encode(),
        };
        out.append(body.as_str());
        assert(out@ =~= kw_delete_data() + seq![' '] + ids_chars(self@));
        out
    }
}

impl Protocol {
    /// The text of the request: `speakrs ` followed by the request's own
    /// text. Every list of ids in it must be non-empty.
    pub fn encode(&self) -> (r: String)
        requires
            writable(self@),
        ensures
            r@ == protocol_chars(self@),
    {
        proof {
            reveal_strlit("speakrs");
            reveal_strlit(" ");
        }
        let mut out = String::from_str("speakrs");
        out.append(" ");
        let body = match self {
            Protocol::NewData(cmd) => cmd.encode(),
            Protocol::RegisterData(cmd) => cmd.encode(),
            Protocol::GetData(cmd) => cmd.encode(),
            Protocol::DeleteData(cmd) => cmd.encode(),
        };
        out.append(body.as_str());
        assert(out@ =~= protocol_chars(self@));
        out
    }
}

} // verus!
