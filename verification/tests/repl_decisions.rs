use speakrs::key::PrefixedKey;
use speakrs::repl::{
    arg_guard, channel_add_args, confirm_registration, get_channel_by_name, is_affirmative,
    join_lines, last_message_in, message_add_args, message_sync_args, multiline_step,
    name_answer, repl_step, Confirmation, MultilineStep, NameAnswer, PromptEvent, ReplAction,
    SyncArgs,
};
use speakrs::schema::{ChannelData, ChannelKey, MessageKey};
use speakrs::text::{split_first_word, split_opt_words};

#[test]
fn repl_lines() {
    let s = repl_step("  help  ", false);
    assert!(s.record_history);
    assert!(matches!(s.action, ReplAction::Help));
    assert!(matches!(repl_step("quit", true).action, ReplAction::Quit));
    match repl_step("connect 127.0.0.1:51777", false).action {
        ReplAction::Connect(a) => assert_eq!(a, "127.0.0.1:51777"),
        other => panic!("{:?}", other),
    }
    match repl_step("connect a b c", false).action {
        ReplAction::TrailingArgs(t) => assert_eq!(t, "b c"),
        other => panic!("{:?}", other),
    }
    assert!(matches!(repl_step("message view", false).action, ReplAction::NotConnected));
    assert!(matches!(repl_step("message view", true).action, ReplAction::Execute));
    let blank = repl_step("   ", true);
    assert!(!blank.record_history);
    assert!(matches!(blank.action, ReplAction::Execute));
}

#[test]
fn guards_and_answers() {
    assert!(arg_guard(""));
    assert!(!arg_guard(" x"));
    assert!(is_affirmative("yes"));
    assert!(is_affirmative("Y"));
    assert!(!is_affirmative("no"));
    assert!(!is_affirmative(" y"));
    assert_eq!(confirm_registration(&PromptEvent::Input("y".to_string())), Confirmation::Yes);
    assert_eq!(confirm_registration(&PromptEvent::Input("n".to_string())), Confirmation::No);
    assert_eq!(confirm_registration(&PromptEvent::Interrupted), Confirmation::Abort);
    assert_eq!(confirm_registration(&PromptEvent::Ended), Confirmation::Abort);
}

#[test]
fn name_answers() {
    assert!(matches!(name_answer(PromptEvent::Input("bob".to_string())), NameAnswer::Accept(n) if n == "bob"));
    assert!(matches!(name_answer(PromptEvent::Input("b ob".to_string())), NameAnswer::Reject(n) if n == "b ob"));
    assert!(matches!(name_answer(PromptEvent::Input("b\tob".to_string())), NameAnswer::Reject(n) if n == "b\tob"));
    assert!(matches!(name_answer(PromptEvent::Ended), NameAnswer::Abort));
}

#[test]
fn multiline_prompts() {
    assert_eq!(multiline_step(&PromptEvent::Input("text".to_string())), MultilineStep::Push);
    assert_eq!(multiline_step(&PromptEvent::Input(String::new())), MultilineStep::Finish);
    assert_eq!(multiline_step(&PromptEvent::Interrupted), MultilineStep::Cancel);
    assert_eq!(multiline_step(&PromptEvent::Ended), MultilineStep::Finish);
    assert_eq!(join_lines(&vec![]), "");
    assert_eq!(join_lines(&vec!["a".to_string()]), "a");
    assert_eq!(join_lines(&vec!["a".to_string(), "b c".to_string(), "d".to_string()]), "a\nb c\nd");
}

#[test]
fn command_arguments() {
    assert!(message_add_args("").is_none());
    assert_eq!(message_add_args("general"), Some(("general".to_string(), None)));
    assert_eq!(
        message_add_args(" general  hello there "),
        Some(("general".to_string(), Some("hello there".to_string())))
    );
    assert!(matches!(message_sync_args("general extra"), SyncArgs::Trailing(t) if t == "extra"));
    assert!(matches!(message_sync_args("   "), SyncArgs::MissingChannel));
    assert!(matches!(message_sync_args("general"), SyncArgs::Channel(c) if c == "general"));
    assert_eq!(channel_add_args(""), (None, None));
    assert_eq!(channel_add_args("news"), (Some("news".to_string()), None));
    assert_eq!(
        channel_add_args("news all the news"),
        (Some("news".to_string()), Some("all the news".to_string()))
    );
}

#[test]
fn lookups() {
    let channels = vec![
        ChannelData::text("a".to_string(), "first".to_string()),
        ChannelData::voice("b".to_string(), "second".to_string()),
        ChannelData::text("b".to_string(), "third".to_string()),
    ];
    assert_eq!(get_channel_by_name(&channels, "b"), Some(1));
    assert_eq!(get_channel_by_name(&channels, "a"), Some(0));
    assert_eq!(get_channel_by_name(&channels, "c"), None);

    let c1 = ChannelKey::new_now();
    let c2 = ChannelKey::new_now();
    let keys: Vec<MessageKey> = vec![
        PrefixedKey::new_now(c1),
        PrefixedKey::new_now(c2),
        PrefixedKey::new_now(c1),
        PrefixedKey::new_now(c2),
    ];
    assert_eq!(last_message_in(&keys, &c1), Some(2));
    assert_eq!(last_message_in(&keys, &c2), Some(3));
    assert_eq!(last_message_in(&keys, &ChannelKey::new_now()), None);
}

#[test]
fn words_of_a_line() {
    assert_eq!(split_first_word("  connect  1.2.3.4 x "), ("connect", "1.2.3.4 x"));
    assert_eq!(split_first_word("one"), ("one", ""));
    assert_eq!(split_opt_words(2, "  a  b c "), (vec!["a", "b"], "c"));
    assert_eq!(split_opt_words(5, "x y"), (vec!["x", "y"], ""));
    assert_eq!(split_opt_words(0, " keep "), (vec![], " keep "));
    for (words, _) in [split_opt_words(3, "p\tq  r s"), split_opt_words(1, "   ")] {
        assert!(words.len() <= 3);
        for w in words {
            assert!(!w.is_empty() && !w.contains(char::is_whitespace));
        }
    }
}

#[test]
fn first_word_consequences() {
    for line in ["  go  on now ", "go", "\t\n", "", "a\u{a0}b c"] {
        let (w, r) = split_first_word(line);
        let t = line.trim();
        assert!(!w.contains(char::is_whitespace));
        assert_eq!(w.is_empty(), t.is_empty());
        assert!(t.starts_with(w));
        assert_eq!(r, r.trim());
        assert_eq!(r, t[w.len()..].trim_start());
    }
}

#[test]
fn opt_words_keep_all_words() {
    for (count, text) in [(1, " a b  c "), (2, "a b"), (3, "x\ty"), (2, "   "), (4, "p q r s t")] {
        let (ws, rest) = split_opt_words(count, text);
        let joined: Vec<&str> = ws.iter().copied().chain(rest.split_whitespace()).collect();
        let expected: Vec<&str> = text.split_whitespace().collect();
        assert_eq!(joined, expected);
        assert_eq!(rest, rest.trim());
        if ws.len() < count {
            assert_eq!(rest, "");
        }
    }
    assert_eq!(split_opt_words(1, " a b  c "), (vec!["a"], "b  c"));
}
