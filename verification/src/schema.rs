//! The records kept by client and server: channels, users, messages, and
//! what each side knows of the other.
use vstd::prelude::*;

use crate::key::{PrefixedKey, UuidKey};

verus! {

/// The key of a user.
pub type UserKey = UuidKey<UserData>;

/// The key of a channel.
pub type ChannelKey = UuidKey<ChannelData>;

/// The key of a message: the key of its channel, then its own.
pub type MessageKey = PrefixedKey<ChannelKey, MessageData>;

/// Whether a channel carries text or voice.
#[derive(Clone, Copy, Debug, PartialEq, Eq, Structural)]
pub enum ChannelType {
    Text,
    Voice,
}

/// A channel: its kind, its name and its description.
#[derive(Debug)]
pub struct ChannelData {
    channel_type: ChannelType,
    display_name: String,
    desc: String,
}

/// A channel, with its texts as characters.
pub struct ChannelDataView {
    pub channel_type: ChannelType,
    pub name: Seq<char>,
    pub desc: Seq<char>,
}

impl View for ChannelData {
    type V = ChannelDataView;

    closed spec fn view(&self) -> ChannelDataView {
        ChannelDataView {
            channel_type: self.channel_type,
            name: self.display_name@,
            desc: self.desc@,
        }
    }
}

impl ChannelData {
    /// A text channel named `display_name` with description `desc`.
    pub fn text(display_name: String, desc: String) -> (r: Self)
        ensures
            r@ == (ChannelDataView { channel_type: ChannelType::Text, name: display_name@, desc: desc@ }),
    {
        ChannelData { channel_type: ChannelType::Text, display_name, desc }
    }

    /// A voice channel named `display_name` with description `desc`.
    pub fn voice(display_name: String, desc: String) -> (r: Self)
        ensures
            r@ == (ChannelDataView { channel_type: ChannelType::Voice, name: display_name@, desc: desc@ }),
    {
        ChannelData { channel_type: ChannelType::Voice, display_name, desc }
    }

    /// The name of the channel.
    pub fn get_name(&self) -> (r: &str)
        ensures
            r@ == self@.name,
    {
        self.display_name.as_str()
    }

    /// The description of the channel.
    pub fn get_description(&self) -> (r: &str)
        ensures
            r@ == self@.desc,
    {
        self.desc.as_str()
    }

    /// Whether the channel carries text or voice.
    pub fn get_channel_type(&self) -> (r: ChannelType)
        ensures
            r == self@.channel_type,
    {
        self.channel_type
    }
}

/// A user.
#[derive(Debug)]
pub struct UserData {
    pub name: String,
}

impl UserData {
    /// The user named `name`.
    pub fn new(name: String) -> (r: Self)
        ensures
            r.name@ == name@,
    {
        UserData { name }
    }
}

/// A point in time: whole seconds since the Unix epoch, and nanoseconds
/// past that second.
#[derive(Clone, Copy, Debug, PartialEq, Eq, Structural)]
pub struct UtcTime {
    pub seconds: i64,
    pub nanos: u32,
}

/// Calls `chrono::Utc::now` and splits the result with `timestamp` and
/// `timestamp_subsec_nanos`. `now` takes the time since the Unix epoch from
/// the system clock, so the seconds are not negative and the nanoseconds
/// are below one second; which time it is depends on the clock and is not
/// stated.
#[verifier::external_body]
fn utc_now() -> (r: UtcTime)
    ensures
        r.seconds >= 0,
        r.nanos < 1_000_000_000,
{
    let now = chrono::Utc::now();
    UtcTime { seconds: now.timestamp(), nanos: now.timestamp_subsec_nanos() }
}

/// A message: when it was written, by whom, and its text.
#[derive(Debug)]
pub struct MessageData {
    pub timestamp: UtcTime,
    pub author: UserKey,
    pub content: String,
}

impl MessageData {
    /// The message `content` by `author`, written now.
    pub fn now(author: UserKey, content: String) -> (r: Self)
        ensures
            r.timestamp.seconds >= 0,
            r.timestamp.nanos < 1_000_000_000,
            r.author == author,
            r.content@ == content@,
    {
        Self::new(utc_now(), author, content)
    }

    /// The message `content` by `author`, written at `timestamp`.
    pub fn new(timestamp: UtcTime, author: UserKey, content: String) -> (r: Self)
        ensures
            r.timestamp == timestamp,
            r.author == author,
            r.content@ == content@,
    {
        MessageData { timestamp, author, content }
    }
}

/// What a client keeps of its own user on a server.
#[derive(Debug)]
pub struct ClientData {
    pub user_key: UserKey,
    pub session: Option<crate::auth::SessionToken>,
}

/// What a server says of itself: the name it runs under on its host, and
/// the sixteen bytes of its identifier.
#[derive(Debug)]
pub struct ServerInfoData {
    pub name: String,
    pub uuid: [u8; 16],
}

} // verus!
