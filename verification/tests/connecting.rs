use speakrs::connect::{connect_step, ConnectAction, ConnectEvent, ConnectState};
use speakrs::repl::PromptEvent;

fn line(s: &str) -> ConnectEvent {
    ConnectEvent::Answer(PromptEvent::Input(s.to_string()))
}

#[test]
fn connecting_registers_then_logs_in() {
    let (s, a) = connect_step(ConnectState::Start, ConnectEvent::Reached { registered: false });
    assert!(matches!(s, ConnectState::Confirming) && matches!(a, ConnectAction::AskRegister));
    let (s, a) = connect_step(s, line("yes"));
    assert!(matches!(s, ConnectState::ChoosingName) && matches!(a, ConnectAction::AskName));
    let (s, a) = connect_step(s, line("bad name"));
    assert!(matches!(s, ConnectState::ChoosingName));
    assert!(matches!(a, ConnectAction::RejectName { ref name } if name == "bad name"));
    let (s, a) = connect_step(s, line("bad\tname"));
    assert!(matches!(a, ConnectAction::RejectName { .. }));
    let (s, a) = connect_step(s, line("alice"));
    assert!(matches!(s, ConnectState::ChoosingPassword { ref username } if username == "alice"));
    assert!(matches!(a, ConnectAction::AskPassword));
    let (s, a) = connect_step(s, line("secret"));
    assert!(matches!(
        a,
        ConnectAction::Register { ref username, ref password } if username == "alice" && password == "secret"
    ));
    let (s, a) = connect_step(s, ConnectEvent::Registered);
    assert!(matches!(s, ConnectState::LoggingIn));
    assert!(matches!(a, ConnectAction::Login { ref password } if password == "secret"));
    let (s, a) = connect_step(s, ConnectEvent::LoggedIn);
    assert!(matches!(s, ConnectState::Done) && matches!(a, ConnectAction::Keep));
}

#[test]
fn declining_or_interrupting_stops() {
    let (s, _) = connect_step(ConnectState::Start, ConnectEvent::Reached { registered: false });
    let (s, a) = connect_step(s, line("n"));
    assert!(matches!(s, ConnectState::Stopped) && matches!(a, ConnectAction::Drop { announce: true }));
    let (_, a) = connect_step(ConnectState::Confirming, ConnectEvent::Answer(PromptEvent::Interrupted));
    assert!(matches!(a, ConnectAction::Drop { announce: false }));
    let (_, a) = connect_step(ConnectState::ChoosingName, ConnectEvent::Answer(PromptEvent::Ended));
    assert!(matches!(a, ConnectAction::Drop { announce: false }));
    let (_, a) = connect_step(ConnectState::AskingPassword, ConnectEvent::Answer(PromptEvent::Ended));
    assert!(matches!(a, ConnectAction::Drop { announce: false }));
    let (_, a) = connect_step(ConnectState::Done, ConnectEvent::LoggedIn);
    assert!(matches!(a, ConnectAction::Drop { announce: false }));
}

#[test]
fn registered_client_checks_its_session() {
    let (s, a) = connect_step(ConnectState::Start, ConnectEvent::Reached { registered: true });
    assert!(matches!(s, ConnectState::Verifying) && matches!(a, ConnectAction::VerifySession));
    let (s2, a2) = connect_step(s, ConnectEvent::SessionChecked { accepted: true });
    assert!(matches!(s2, ConnectState::Done) && matches!(a2, ConnectAction::Keep));
    let (s, a) = connect_step(ConnectState::Verifying, ConnectEvent::SessionChecked { accepted: false });
    assert!(matches!(s, ConnectState::AskingPassword) && matches!(a, ConnectAction::AskPassword));
    let (s, a) = connect_step(s, line("pw"));
    assert!(matches!(s, ConnectState::LoggingIn));
    assert!(matches!(a, ConnectAction::Login { ref password } if password == "pw"));
}
