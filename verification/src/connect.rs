//! The steps of connecting to a server from the prompt: whether to register
//! a user, under which name and password, and when to log in. Reading the
//! prompts and talking to the server happen between the steps: each step
//! takes what happened and says what to do next.
use vstd::prelude::*;

use crate::config::{is_valid_username, valid_name};
use crate::repl::{confirm_registration, Confirmation, PromptEvent};
use crate::text::{is_whitespace, starts_with};

verus! {

/// Where connecting stands.
#[derive(Debug)]
pub enum ConnectState {
    /// The server was reached; nothing asked yet.
    Start,
    /// Asked whether to register a user.
    Confirming,
    /// Asked for the name of the user to register.
    ChoosingName,
    /// Asked for the password of the user `username` to register.
    ChoosingPassword { username: String },
    /// Registering; `password` is the one to log in with afterwards.
    Registering { password: String },
    /// Asked the server whether the stored session is still accepted.
    Verifying,
    /// Asked for the password to log in with.
    AskingPassword,
    /// Logging in.
    LoggingIn,
    /// Logged in: the connection is kept.
    Done,
    /// Given up: the connection is dropped.
    Stopped,
}

/// What happened since the last step.
#[derive(Debug)]
pub enum ConnectEvent {
    /// The server was reached; whether this client has a user there.
    Reached { registered: bool },
    /// A prompt read this.
    Answer(PromptEvent),
    /// The user was registered.
    Registered,
    /// The server said whether the stored session is accepted.
    SessionChecked { accepted: bool },
    /// The login went through.
    LoggedIn,
}

/// What to do next.
#[derive(Debug)]
pub enum ConnectAction {
    /// Tell that the server has no user of this client and ask whether to
    /// register one.
    AskRegister,
    /// Ask for a user name.
    AskName,
    /// Tell that `name` breaks the rules for user names, then ask for a
    /// user name again.
    RejectName { name: String },
    /// Ask for a password.
    AskPassword,
    /// Register the user `username` with `password`.
    Register { username: String, password: String },
    /// Ask the server whether the stored session is accepted.
    VerifySession,
    /// Log in with `password`.
    Login { password: String },
    /// Keep the connection.
    Keep,
    /// Drop the connection; `announce` says whether to tell that it was
    /// aborted.
    Drop { announce: bool },
}

/// The next state and what to do, from the state and what happened.
/// A client without a user is asked whether to register one; a `y` or `Y`
/// answer leads to a name (asked again while it breaks the rules) and a
/// password, then to registering and logging in with that password. A
/// client with a user has its stored session checked, and is asked for a
/// password and logged in when the session is not accepted. Any other
/// answer or event stops, and only a "no" to registering is announced.
pub open spec fn next_connect(state: ConnectState, event: ConnectEvent) -> (
    ConnectState,
    ConnectAction,
) {
    match (state, event) {
        (ConnectState::Start, ConnectEvent::Reached { registered }) => if registered {
            (ConnectState::Verifying, ConnectAction::VerifySession)
        } else {
            (ConnectState::Confirming, ConnectAction::AskRegister)
        },
        (ConnectState::Confirming, ConnectEvent::Answer(PromptEvent::Input(x))) => if starts_with(
            x@,
            "y"@,
        ) || starts_with(x@, "Y"@) {
            (ConnectState::ChoosingName, ConnectAction::AskName)
        } else {
            (ConnectState::Stopped, ConnectAction::Drop { announce: true })
        },
        (ConnectState::ChoosingName, ConnectEvent::Answer(PromptEvent::Input(x))) => if valid_name(
            x@,
        ) {
            (ConnectState::ChoosingPassword { username: x }, ConnectAction::AskPassword)
        } else {
            (ConnectState::ChoosingName, ConnectAction::RejectName { name: x })
        },
        (
            ConnectState::ChoosingPassword { username },
            ConnectEvent::Answer(PromptEvent::Input(p)),
        ) => (ConnectState::Registering { password: p }, ConnectAction::Register { username, password: p }),
        (ConnectState::Registering { password }, ConnectEvent::Registered) => (
            ConnectState::LoggingIn,
            ConnectAction::Login { password },
        ),
        (ConnectState::Verifying, ConnectEvent::SessionChecked { accepted }) => if accepted {
            (ConnectState::Done, ConnectAction::Keep)
        } else {
            (ConnectState::AskingPassword, ConnectAction::AskPassword)
        },
        (ConnectState::AskingPassword, ConnectEvent::Answer(PromptEvent::Input(p))) => (
            ConnectState::LoggingIn,
            ConnectAction::Login { password: p },
        ),
        (ConnectState::LoggingIn, ConnectEvent::LoggedIn) => (ConnectState::Done, ConnectAction::Keep),
        _ => (ConnectState::Stopped, ConnectAction::Drop { announce: false }),
    }
}

/// One step of connecting; see `next_connect`.
pub fn connect_step(state: ConnectState, event: ConnectEvent) -> (r: (ConnectState, ConnectAction))
    ensures
        r == next_connect(state, event),
{
    match (state, event) {
        (ConnectState::Start, ConnectEvent::Reached { registered }) => if registered {
            (ConnectState::Verifying, ConnectAction::VerifySession)
        } else {
            (ConnectState::Confirming, ConnectAction::AskRegister)
        },
        (ConnectState::Confirming, ConnectEvent::Answer(e)) => match confirm_registration(&e) {
            Confirmation::Yes => (ConnectState::ChoosingName, ConnectAction::AskName),
            Confirmation::No => (ConnectState::Stopped, ConnectAction::Drop { announce: true }),
            Confirmation::Abort => (ConnectState::Stopped, ConnectAction::Drop { announce: false }),
        },
        (ConnectState::ChoosingName, ConnectEvent::Answer(PromptEvent::Input(x))) => if is_valid_username(
            x.as_str(),
        ) {
            (ConnectState::ChoosingPassword { username: x }, ConnectAction::AskPassword)
        } else {
            (ConnectState::ChoosingName, ConnectAction::RejectName { name: x })
        },
        (
            ConnectState::ChoosingPassword { username },
            ConnectEvent::Answer(PromptEvent::Input(p)),
        ) => {
            let login_password = p.clone();
            (
                ConnectState::Registering { password: login_password },
                ConnectAction::Register { username, password: p },
            )
        },
        (ConnectState::Registering { password }, ConnectEvent::Registered) => (
            ConnectState::LoggingIn,
            ConnectAction::Login { password },
        ),
        (ConnectState::Verifying, ConnectEvent::SessionChecked { accepted }) => if accepted {
            (ConnectState::Done, ConnectAction::Keep)
        } else {
            (ConnectState::AskingPassword, ConnectAction::AskPassword)
        },
        (ConnectState::AskingPassword, ConnectEvent::Answer(PromptEvent::Input(p))) => (
            ConnectState::LoggingIn,
            ConnectAction::Login { password: p },
        ),
        (ConnectState::LoggingIn, ConnectEvent::LoggedIn) => (ConnectState::Done, ConnectAction::Keep),
        _ => (ConnectState::Stopped, ConnectAction::Drop { announce: false }),
    }
}

/// A user who registers logs in next with the password given for the new
/// user: registering never ends the connecting by itself.
pub proof fn law_register_logs_in(username: String, p: String)
    ensures
        next_connect(
            ConnectState::ChoosingPassword { username },
            ConnectEvent::Answer(PromptEvent::Input(p)),
        ).1 == (ConnectAction::Register { username, password: p }),
        next_connect(next_connect(
            ConnectState::ChoosingPassword { username },
            ConnectEvent::Answer(PromptEvent::Input(p)),
        ).0, ConnectEvent::Registered) == (ConnectState::LoggingIn, ConnectAction::Login { password: p }),
{
}

/// The connection is kept only right after a login went through or the
/// server accepted the stored session.
pub proof fn law_kept_only_when_logged_in(state: ConnectState, event: ConnectEvent)
    ensures
        next_connect(state, event).1 is Keep ==> (state is LoggingIn && event is LoggedIn) || (
        state is Verifying && event == (ConnectEvent::SessionChecked { accepted: true })),
{
}

/// To the question whether to register, an answer goes on to choosing a
/// name exactly when its first character is `y` or `Y`; any other line is a
/// "no", which is announced, and anything but a line stops silently.
pub proof fn law_register_answer(answer: PromptEvent)
    ensures
        ({
            let (s, a) = next_connect(ConnectState::Confirming, ConnectEvent::Answer(answer));
            match answer {
                PromptEvent::Input(x) => if x@.len() > 0 && (x@[0] == 'y' || x@[0] == 'Y') {
                    s is ChoosingName && a is AskName
                } else {
                    s is Stopped && a == (ConnectAction::Drop { announce: true })
                },
                _ => s is Stopped && a == (ConnectAction::Drop { announce: false }),
            }
        }),
{
    reveal_strlit("y");
    reveal_strlit("Y");
    assert("y"@ =~= seq!['y']);
    assert("Y"@ =~= seq!['Y']);
    if let PromptEvent::Input(x) = answer {
        if x@.len() > 0 {
            assert(x@.take(1) =~= seq![x@[0]]);
            if x@[0] == 'y' {
                assert(starts_with(x@, "y"@));
            }
            if x@[0] == 'Y' {
                assert(starts_with(x@, "Y"@));
            }
            if starts_with(x@, "y"@) || starts_with(x@, "Y"@) {
                assert(x@.take(1)[0] == x@[0]);
            }
        }
    }
}

/// A user name given at the prompt is taken exactly when no character of it
/// is whitespace, and then it is the name registered; otherwise it is shown
/// back and asked for again. Anything but a line stops.
pub proof fn law_name_answer(answer: PromptEvent)
    ensures
        ({
            let (s, a) = next_connect(ConnectState::ChoosingName, ConnectEvent::Answer(answer));
            match answer {
                PromptEvent::Input(x) => if forall|i: int|
                    0 <= i < x@.len() ==> !is_whitespace(#[trigger] x@[i]) {
                    s == (ConnectState::ChoosingPassword { username: x }) && a is AskPassword
                } else {
                    s is ChoosingName && a == (ConnectAction::RejectName { name: x })
                },
                _ => s is Stopped && a == (ConnectAction::Drop { announce: false }),
            }
        }),
{
}

} // verus!
