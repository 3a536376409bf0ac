use speakrs::command::{CommandResolution, CommandTree, CommandTreeMember};

fn test_commands() -> CommandTree<'static, ()> {
    CommandTree(vec![
        CommandTreeMember::single("help", "Testing tests", vec![]),
        CommandTreeMember::group(
            "test_group",
            "Testing tests",
            vec![
                CommandTreeMember::single("test", "Testing tests", vec![]),
                CommandTreeMember::single("group", "Testing tests", vec![]),
            ],
        ),
    ])
}

#[test]
fn test_traverse() {
    let commands = test_commands();
    let text = "test_group test some args ignored";
    let (m, rest) = commands.traverse_to_member(text).unwrap();
    assert_eq!(m.name, "test");
    assert_eq!(rest, "some args ignored");
}

#[test]
fn traverse_unknown_and_blank_lines() {
    let commands = test_commands();
    assert!(commands.traverse_to_member("nothing here").is_none());
    assert!(commands.traverse_to_member("   ").is_none());
}

fn echo(n: u32) -> u32 {
    n + 1
}

#[test]
fn test_binding() {
    let tree: CommandTree<'static, fn(u32) -> u32> = CommandTree(vec![CommandTreeMember::binding(
        "test",
        "Open this help.",
        vec![],
        echo,
    )]);
    let binding = tree.0[0].binding.unwrap();
    assert_eq!(binding(1), 2);
    match tree.resolve("test het the tri") {
        CommandResolution::Run(b, args) => {
            assert_eq!(b(41), 42);
            assert_eq!(args, "het the tri");
        }
        _ => panic!("expected the bound command"),
    }
    assert!(matches!(tree.resolve("unknown"), CommandResolution::NotFound));
}

#[test]
fn resolve_without_binding() {
    let commands = test_commands();
    assert!(matches!(commands.resolve("help"), CommandResolution::NoBinding));
}

use speakrs::command::{ArgumentType, CommandTreeArgument, CompletionPlan};

fn completion_tree() -> CommandTree<'static, ()> {
    CommandTree(vec![
        CommandTreeMember::single("help", "Open this help.", vec![]),
        CommandTreeMember::single(
            "connect",
            "Connect to server with IP on PORT.",
            vec![CommandTreeArgument::Required(ArgumentType::IpAddress, "IP:PORT")],
        ),
        CommandTreeMember::group(
            "message",
            "Manipulate messages",
            vec![
                CommandTreeMember::single(
                    "add",
                    "Add a message",
                    vec![
                        CommandTreeArgument::Required(ArgumentType::ChannelName, "CHANNEL"),
                        CommandTreeArgument::Optional(ArgumentType::String, "CONTENT"),
                    ],
                ),
                CommandTreeMember::single("sync", "Sync", vec![]),
            ],
        ),
    ])
}

fn candidates(plan: CompletionPlan) -> Vec<String> {
    match plan {
        CompletionPlan::Candidates(c) => c,
        other => panic!("expected candidates, got {:?}", other),
    }
}

#[test]
fn complete_first_word() {
    let tree = completion_tree();
    assert_eq!(candidates(tree.complete("", "")), vec!["help", "connect", "message"]);
    assert_eq!(candidates(tree.complete("  ", "he")), vec!["help"]);
    assert!(candidates(tree.complete("", "x")).is_empty());
}

#[test]
fn complete_after_group_and_arguments() {
    let tree = completion_tree();
    assert_eq!(candidates(tree.complete("message ", "s")), vec!["sync"]);
    assert_eq!(candidates(tree.complete("message ", "")), vec!["add", "sync"]);
    assert!(matches!(tree.complete("message add ", "ge"), CompletionPlan::ChannelNames));
    assert!(candidates(tree.complete("connect ", "1")).is_empty());
    assert!(matches!(tree.complete("nothing ", ""), CompletionPlan::Nothing));
    let names = vec!["general".to_string(), "games".to_string(), "news".to_string()];
    assert_eq!(ArgumentType::ChannelName.channel_completions(&names, "ge"), vec!["general"]);
    assert_eq!(ArgumentType::ChannelName.channel_completions(&names, "").len(), 3);
    assert!(ArgumentType::Int.channel_completions(&names, "").is_empty());
}

#[test]
fn help_text() {
    let tree = completion_tree();
    let help = tree.to_display_string().unwrap();
    assert!(help.starts_with("help"));
    assert!(help.contains("connect IP:PORT"));
    assert!(help.contains("Manipulate messages"));
}
