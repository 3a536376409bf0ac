//! The decisions of the interactive client: what a typed line asks for,
//! how the answers to its prompts are taken, and how the arguments of its
//! commands are read. Reading lines and talking to the server happen
//! around these.
use vstd::prelude::*;

use crate::config::{is_valid_channel_name, valid_name};
use crate::schema::{ChannelData, ChannelKey, MessageKey};
use crate::text::{
    first_word, is_blank, is_blank_str, opt_words, split_first_word, split_opt_words, starts_with,
    str_equal, str_starts_with, str_views,
};

verus! {

/// Whether no arguments are left over; where some are, the caller warns
/// about them.
pub fn arg_guard(args: &str) -> (r: bool)
    ensures
        r == (args@.len() == 0),
{
    args.unicode_len() == 0
}

// ======================================
// => The prompt loop
// ======================================
/// What a line typed at the prompt asks for.
#[derive(Debug)]
pub enum ReplAction {
    /// Show the commands.
    Help,
    /// Leave.
    Quit,
    /// Connect to the server at this address.
    Connect(String),
    /// `connect` with more than an address; these are the extra words.
    TrailingArgs(String),
    /// A command that needs a server, with none connected.
    NotConnected,
    /// Run the line as a command.
    Execute,
}

/// What to do with a typed line: whether it goes into the history, and
/// what it asks for.
#[derive(Debug)]
pub struct ReplStep {
    pub record_history: bool,
    pub action: ReplAction,
}

/// What the line `line` asks for, with or without a server connected.
pub open spec fn repl_action_ok(line: Seq<char>, connected: bool, a: ReplAction) -> bool {
    let (cmd, args) = first_word(line);
    if cmd == "help"@ {
        a is Help
    } else if cmd == "quit"@ {
        a is Quit
    } else if cmd == "connect"@ {
        let (address, rest) = first_word(args);
        if rest.len() == 0 {
            a matches ReplAction::Connect(x) && x@ == address
        } else {
            a matches ReplAction::TrailingArgs(x) && x@ == rest
        }
    } else if !connected {
        a is NotConnected
    } else {
        a is Execute
    }
}

/// Whether a server is connected or not, a line whose first word is `help`
/// asks for help, one whose first word is `quit` asks to leave, and one
/// whose first word is `connect` is taken the same way.
pub proof fn law_help_and_quit_need_no_server(line: Seq<char>, connected: bool, a: ReplAction)
    ensures
        first_word(line).0 == "help"@ ==> (repl_action_ok(line, connected, a) <==> a is Help),
        first_word(line).0 == "quit"@ ==> (repl_action_ok(line, connected, a) <==> a is Quit),
        first_word(line).0 == "connect"@ ==> (repl_action_ok(line, true, a) <==> repl_action_ok(
            line,
            false,
            a,
        )),
{
    reveal_strlit("help");
    reveal_strlit("quit");
    reveal_strlit("connect");
    assert("quit"@[0] != "help"@[0]);
    assert("connect"@[0] != "help"@[0]);
    assert("connect"@[0] != "quit"@[0]);
}

/// What to do with the typed line `line`: a line that is not blank goes
/// into the history; `help`, `quit` and `connect ADDRESS` are handled by
/// the prompt; any other line is a command, which needs a server.
pub fn repl_step(line: &str, connected: bool) -> (r: ReplStep)
    ensures
        r.record_history == !is_blank(line@),
        repl_action_ok(line@, connected, r.action),
{
    proof {
        reveal_strlit("help");
        reveal_strlit("quit");
        reveal_strlit("connect");
    }
    let record_history = !is_blank_str(line);
    let (cmd, args) = split_first_word(line);
    let action = if str_equal(cmd, "help") {
        ReplAction::Help
    } else if str_equal(cmd, "quit") {
        ReplAction::Quit
    } else if str_equal(cmd, "connect") {
        let (address, rest) = split_first_word(args);
        if arg_guard(rest) {
            ReplAction::Connect(address.to_string())
        } else {
            ReplAction::TrailingArgs(rest.to_string())
        }
    } else if !connected {
        ReplAction::NotConnected
    } else {
        ReplAction::Execute
    };
    ReplStep { record_history, action }
}

// ======================================
// => Prompts
// ======================================
/// What a prompt read.
#[derive(Debug)]
pub enum PromptEvent {
    /// A line.
    Input(String),
    /// An interrupt (^C).
    Interrupted,
    /// The end of input, or another signal.
    Ended,
}

/// Whether the answer to a yes/no question is yes: it starts with `y` or
/// `Y`.
pub fn is_affirmative(answer: &str) -> (r: bool)
    ensures
        r == (starts_with(answer@, "y"@) || starts_with(answer@, "Y"@)),
{
    str_starts_with(answer, "y") || str_starts_with(answer, "Y")
}

/// The answer to the question whether to register a user.
#[derive(Clone, Copy, Debug, PartialEq, Eq, Structural)]
pub enum Confirmation {
    /// Go on.
    Yes,
    /// Stop, telling that it was aborted.
    No,
    /// Stop without a word.
    Abort,
}

/// How the answer `input` to the question whether to register a user is
/// taken: a line that starts with `y` or `Y` is yes, any other line no;
/// anything but a line stops.
pub fn confirm_registration(input: &PromptEvent) -> (r: Confirmation)
    ensures
        match input {
            PromptEvent::Input(x) => r == (if starts_with(x@, "y"@) || starts_with(x@, "Y"@) {
                Confirmation::Yes
            } else {
                Confirmation::No
            }),
            _ => r == Confirmation::Abort,
        },
{
    match input {
        PromptEvent::Input(x) => if is_affirmative(x.as_str()) {
            Confirmation::Yes
        } else {
            Confirmation::No
        },
        _ => Confirmation::Abort,
    }
}

/// How an answer to a prompt for a name was taken.
#[derive(Debug)]
pub enum NameAnswer {
    /// A valid name.
    Accept(String),
    /// A name that breaks the rules; the prompt tells the rules.
    Reject(String),
    /// Anything but a line: stop.
    Abort,
}

/// How the answer `input` to a prompt for a user or channel name is taken:
/// a line is accepted when it holds no whitespace, otherwise rejected; anything
/// but a line stops.
pub fn name_answer(input: PromptEvent) -> (r: NameAnswer)
    ensures
        match input {
            PromptEvent::Input(x) => if valid_name(x@) {
                r matches NameAnswer::Accept(n) && n@ == x@
            } else {
                r matches NameAnswer::Reject(n) && n@ == x@
            },
            _ => r is Abort,
        },
{
    match input {
        PromptEvent::Input(x) => if is_valid_channel_name(x.as_str()) {
            NameAnswer::Accept(x)
        } else {
            NameAnswer::Reject(x)
        },
        _ => NameAnswer::Abort,
    }
}

/// What a multi-line prompt does with what it read.
#[derive(Clone, Copy, Debug, PartialEq, Eq, Structural)]
pub enum MultilineStep {
    /// Keep the line and read on.
    Push,
    /// Stop, with the lines read so far.
    Finish,
    /// Stop, with nothing.
    Cancel,
}

/// What a multi-line prompt does with `input`: an empty line or the end of
/// input ends it, an interrupt cancels it, any other line is kept.
pub fn multiline_step(input: &PromptEvent) -> (r: MultilineStep)
    ensures
        match input {
            PromptEvent::Input(x) => r == (if x@.len() == 0 {
                MultilineStep::Finish
            } else {
                MultilineStep::Push
            }),
            PromptEvent::Interrupted => r == MultilineStep::Cancel,
            PromptEvent::Ended => r == MultilineStep::Finish,
        },
{
    match input {
        PromptEvent::Input(x) => if x.unicode_len() == 0 {
            MultilineStep::Finish
        } else {
            MultilineStep::Push
        },
        PromptEvent::Interrupted => MultilineStep::Cancel,
        PromptEvent::Ended => MultilineStep::Finish,
    }
}

/// The lines `lines` joined, with a line break between each two.
pub open spec fn joined(lines: Seq<Seq<char>>) -> Seq<char>
    decreases lines.len(),
{
    if lines.len() == 0 {
        Seq::empty()
    } else if lines.len() == 1 {
        lines[0]
    } else {
        joined(lines.drop_last()) + seq!['\n'] + lines.last()
    }
}

/// The views of a list of strings.
pub open spec fn lines_view(lines: Seq<String>) -> Seq<Seq<char>> {
    lines.map_values(|s: String| s@)
}

/// The lines `lines` joined with line breaks.
pub fn join_lines(lines: &Vec<String>) -> (r: String)
    ensures
        r@ == joined(lines_view(lines@)),
{
    proof {
        reveal_strlit("\n");
    }
    let mut out = String::new();
    let mut i: usize = 0;
    while i < lines.len()
        invariant
            0 <= i <= lines@.len(),
            out@ == joined(lines_view(lines@.take(i as int))),
        decreases lines@.len() - i,
    {
        let ghost before = lines_view(lines@.take(i as int));
        let ghost old_out = out@;
        if i > 0 {
            out.append("\n");
        }
        out.append(lines[i].as_str());
        proof {
            let now = lines_view(lines@.take(i + 1));
            assert(now.drop_last() =~= before);
            assert(now.last() == lines@[i as int]@);
            if i == 0 {
                assert(now =~= seq![lines@[0]@]);
                assert(out@ =~= joined(now));
            } else {
                reveal_strlit("\n");
                assert("\n"@ =~= seq!['\n']);
                assert(joined(now) == joined(now.drop_last()) + seq!['\n'] + now.last());
                assert(out@ =~= old_out + seq!['\n'] + lines@[i as int]@);
            }
        }
        i = i + 1;
    }
    assert(lines@.take(lines@.len() as int) =~= lines@);
    out
}

// ======================================
// => Arguments of commands
// ======================================
/// The arguments of `message add`: the channel's name, and the content
/// when one is given. `None` when no arguments are given at all.
pub fn message_add_args(args: &str) -> (r: Option<(String, Option<String>)>)
    ensures
        args@.len() == 0 ==> r is None,
        args@.len() != 0 ==> (r matches Some((name, content)) && name@ == first_word(args@).0 && (
        if is_blank(first_word(args@).1) {
            content is None
        } else {
            content matches Some(c) && c@ == first_word(args@).1
        })),
{
    if args.unicode_len() == 0 {
        return None;
    }
    let (arg, rest) = split_first_word(args);
    let content = if !is_blank_str(rest) {
        Some(rest.to_string())
    } else {
        None
    };
    Some((arg.to_string(), content))
}

/// What the arguments of `message sync` ask for.
#[derive(Debug)]
pub enum SyncArgs {
    /// More than a channel's name was given; these are the extra words.
    Trailing(String),
    /// No channel's name was given.
    MissingChannel,
    /// Sync the channel with this name.
    Channel(String),
}

/// The arguments of `message sync`: exactly a channel's name.
pub fn message_sync_args(args: &str) -> (r: SyncArgs)
    ensures
        ({
            let (arg, rest) = first_word(args@);
            if rest.len() != 0 {
                r matches SyncArgs::Trailing(t) && t@ == rest
            } else if arg.len() == 0 {
                r is MissingChannel
            } else {
                r matches SyncArgs::Channel(c) && c@ == arg
            }
        }),
{
    let (arg, rest) = split_first_word(args);
    if !arg_guard(rest) {
        return SyncArgs::Trailing(rest.to_string());
    }
    if arg.unicode_len() == 0 {
        return SyncArgs::MissingChannel;
    }
    SyncArgs::Channel(arg.to_string())
}

/// The arguments of `channel add`: the name, when given as the first
/// word, and the description, when more follows.
pub fn channel_add_args(args: &str) -> (r: (Option<String>, Option<String>))
    ensures
        ({
            let (words, rest) = opt_words(1, args@);
            &&& (if words.len() == 1 {
                r.0 matches Some(n) && n@ == words[0]
            } else {
                r.0 is None
            })
            &&& (if is_blank(rest) {
                r.1 is None
            } else {
                r.1 matches Some(d) && d@ == rest
            })
        }),
{
    let (words, rest) = split_opt_words(1, args);
    proof {
        assert(str_views(words@).len() == words@.len());
    }
    let name = if words.len() == 1 {
        proof {
            assert(str_views(words@)[0] == words@[0]@);
        }
        Some(words[0].to_string())
    } else {
        None
    };
    let desc = if !is_blank_str(rest) {
        Some(rest.to_string())
    } else {
        None
    };
    (name, desc)
}

// ======================================
// => Looking things up
// ======================================
/// The index of the first channel named `name`, if there is one.
pub open spec fn first_channel_named(channels: Seq<ChannelData>, name: Seq<char>) -> Option<int> {
    if exists|i: int| 0 <= i < channels.len() && (#[trigger] channels[i])@.name == name {
        Some(
            choose|i: int|
                0 <= i < channels.len() && (#[trigger] channels[i])@.name == name && forall|j: int|
                    0 <= j < i ==> (#[trigger] channels[j])@.name != name,
        )
    } else {
        None
    }
}

/// The index of the first of `channels` named `name`.
pub fn get_channel_by_name(channels: &Vec<ChannelData>, name: &str) -> (r: Option<usize>)
    ensures
        match r {
            Some(i) => i < channels@.len() && channels@[i as int]@.name == name@ && forall|j: int|
                0 <= j < i ==> (#[trigger] channels@[j])@.name != name@,
            None => forall|j: int| 0 <= j < channels@.len() ==> (#[trigger] channels@[j])@.name != name@,
        },
{
    let mut i: usize = 0;
    while i < channels.len()
        invariant
            0 <= i <= channels@.len(),
            forall|j: int| 0 <= j < i ==> (#[trigger] channels@[j])@.name != name@,
        decreases channels@.len() - i,
    {
        if str_equal(channels[i].get_name(), name) {
            return Some(i);
        }
        i = i + 1;
    }
    None
}

/// The index of the last of `keys` that belongs to the channel `channel`.
pub fn last_message_in(keys: &Vec<MessageKey>, channel: &ChannelKey) -> (r: Option<usize>)
    ensures
        match r {
            Some(i) => i < keys@.len() && keys@[i as int].prefix_view() == channel@ && forall|j: int|
                i < j < keys@.len() ==> (#[trigger] keys@[j]).prefix_view() != channel@,
            None => forall|j: int| 0 <= j < keys@.len() ==> (#[trigger] keys@[j]).prefix_view() != channel@,
        },
{
    let mut i: usize = keys.len();
    while i > 0
        invariant
            0 <= i <= keys@.len(),
            forall|j: int| i <= j < keys@.len() ==> (#[trigger] keys@[j]).prefix_view() != channel@,
        decreases i,
    {
        let k = keys[i - 1].prefix();
        if k == *channel {
            return Some(i - 1);
        }
        i = i - 1;
    }
    None
}

} // verus!
