//! The command tree of the interactive client: named commands, groups of
//! commands and their arguments, how a typed line is matched against them,
//! and the help text they print.
use vstd::prelude::*;
use vstd::utf8::encode_utf8;

use crate::text::{
    first_word, is_blank, is_blank_str, law_first_word, lemma_first_word_shrinks, split_first_word,
    starts_with, str_byte_len, str_equal, str_starts_with, words,
};

verus! {

/// The kind of value an argument takes.
#[derive(Clone, Copy, Debug, PartialEq, Eq, Structural)]
pub enum ArgumentType {
    ChannelName,
    String,
    Int,
    IpAddress,
}

impl ArgumentType {
    /// Whether `word` can stand for an argument of this type: every word can.
    pub fn matches(self, word: &str) -> (r: bool)
        ensures
            r,
    {
        true
    }

    /// Of the known channel names, those that complete `word`: all of them
    /// when `word` is empty, else those that start with it. Only channel
    /// names are completed.
    pub fn channel_completions(self, names: &Vec<String>, word: &str) -> (r: Vec<String>)
        ensures
            self != ArgumentType::ChannelName ==> r@.len() == 0,
            self == ArgumentType::ChannelName ==> r@.map_values(|s: String| s@)
                == completions_of(names@.map_values(|s: String| s@), word@),
    {
        let mut r: Vec<String> = Vec::new();
        if self != ArgumentType::ChannelName {
            return r;
        }
        let mut i: usize = 0;
        while i < names.len()
            invariant
                i <= names@.len(),
                r@.map_values(|s: String| s@) == completions_of(
                    names@.map_values(|s: String| s@).take(i as int),
                    word@,
                ),
            decreases names@.len() - i,
        {
            let ghost before = r@;
            let name = &names[i];
            let keep = word.unicode_len() == 0 || str_starts_with(name.as_str(), word);
            proof {
                let all = names@.map_values(|s: String| s@);
                assert(all.take(i + 1).drop_last() =~= all.take(i as int));
                assert(all.take(i + 1).last() == name@);
            }
            if keep {
                r.push(name.clone());
                assert(r@.map_values(|s: String| s@) =~= before.map_values(|s: String| s@).push(
                    name@,
                ));
            }
            i = i + 1;
        }
        assert(names@.map_values(|s: String| s@).take(names@.len() as int) =~= names@.map_values(
            |s: String| s@,
        ));
        r
    }
}

/// The names among `names` that complete `word`, in order: all of them
/// when `word` is empty, else those that start with it.
pub open spec fn completions_of(names: Seq<Seq<char>>, word: Seq<char>) -> Seq<Seq<char>>
    decreases names.len(),
{
    if names.len() == 0 {
        Seq::empty()
    } else {
        let rest = completions_of(names.drop_last(), word);
        if word.len() == 0 || starts_with(names.last(), word) {
            rest.push(names.last())
        } else {
            rest
        }
    }
}

/// An argument of a command, with its type and its name in the help text.
#[derive(Clone, Copy, Debug)]
pub enum CommandTreeArgument<'a> {
    Required(ArgumentType, &'a str),
    RequiredMany(ArgumentType, &'a str),
    Optional(ArgumentType, &'a str),
    OptionalMany(ArgumentType, &'a str),
    WithDefault(ArgumentType, &'a str, &'a str),
}

impl<'a> CommandTreeArgument<'a> {
    /// How the argument reads in the help text.
    pub open spec fn spec_help(self) -> Seq<char> {
        match self {
            CommandTreeArgument::Required(_, s) => s@,
            CommandTreeArgument::RequiredMany(_, s) => s@ + seq!['.', '.', '.'],
            CommandTreeArgument::Optional(_, s) => seq!['['] + s@ + seq![']'],
            CommandTreeArgument::OptionalMany(_, s) => seq!['['] + s@ + seq!['.', '.', '.', ']'],
            CommandTreeArgument::WithDefault(_, s, d) => seq!['['] + s@ + seq!['='] + d@ + seq![
                ']',
            ],
        }
    }

    /// The name of the argument.
    pub open spec fn spec_name(self) -> &'a str {
        match self {
            CommandTreeArgument::Required(_, name) => name,
            CommandTreeArgument::RequiredMany(_, name) => name,
            CommandTreeArgument::Optional(_, name) => name,
            CommandTreeArgument::OptionalMany(_, name) => name,
            CommandTreeArgument::WithDefault(_, name, _) => name,
        }
    }

    /// The type of the argument.
    pub open spec fn spec_argument_type(self) -> ArgumentType {
        match self {
            CommandTreeArgument::Required(t, _) => t,
            CommandTreeArgument::RequiredMany(t, _) => t,
            CommandTreeArgument::Optional(t, _) => t,
            CommandTreeArgument::OptionalMany(t, _) => t,
            CommandTreeArgument::WithDefault(t, _, _) => t,
        }
    }

    /// How the argument reads in the help text: `NAME`, `NAME...`, `[NAME]`,
    /// `[NAME...]` or `[NAME=DEFAULT]`.
    pub fn help(&self) -> (r: String)
        ensures
            r@ == self.spec_help(),
    {
        proof {
            reveal_strlit("...");
            reveal_strlit("[");
            reveal_strlit("]");
            reveal_strlit("...]");
            reveal_strlit("=");
        }
        match self {
            CommandTreeArgument::Required(_, s) => String::from_str(s),
            CommandTreeArgument::RequiredMany(_, s) => {
                let mut r = String::from_str(s);
                r.append("...");
                r
            },
            CommandTreeArgument::Optional(_, s) => {
                let mut r = String::from_str("[");
                r.append(s);
                r.append("]");
                r
            },
            CommandTreeArgument::OptionalMany(_, s) => {
                let mut r = String::from_str("[");
                r.append(s);
                r.append("...]");
                r
            },
            CommandTreeArgument::WithDefault(_, s, d) => {
                let mut r = String::from_str("[");
                r.append(s);
                r.append("=");
                r.append(d);
                r.append("]");
                r
            },
        }
    }

    /// The name of the argument.
    pub fn get_name(&self) -> (r: &'a str)
        ensures
            r == self.spec_name(),
    {
        match self {
            CommandTreeArgument::Required(_, name) => name,
            CommandTreeArgument::RequiredMany(_, name) => name,
            CommandTreeArgument::Optional(_, name) => name,
            CommandTreeArgument::OptionalMany(_, name) => name,
            CommandTreeArgument::WithDefault(_, name, _) => name,
        }
    }

    /// The type of the argument.
    pub fn get_argument_type(&self) -> (r: ArgumentType)
        ensures
            r == self.spec_argument_type(),
    {
        match self {
            CommandTreeArgument::Required(arg_type, _) => *arg_type,
            CommandTreeArgument::RequiredMany(arg_type, _) => *arg_type,
            CommandTreeArgument::Optional(arg_type, _) => *arg_type,
            CommandTreeArgument::OptionalMany(arg_type, _) => *arg_type,
            CommandTreeArgument::WithDefault(arg_type, _, _) => *arg_type,
        }
    }

    /// Whether `word` can stand for this argument: every word can.
    pub fn matches(&self, word: &str) -> (r: bool)
        ensures
            r,
    {
        self.get_argument_type().matches(word)
    }
}

/// What follows a command's name: sub-commands or arguments.
#[derive(Debug)]
pub enum CommandTreePart<'a, B> {
    Members(Vec<CommandTreeMember<'a, B>>),
    Arguments(Vec<CommandTreeArgument<'a>>),
}

/// A command, or a group of commands, with its name and description and
/// the action bound to it, if any.
#[derive(Debug)]
pub struct CommandTreeMember<'a, B> {
    pub name: &'a str,
    pub desc: &'a str,
    pub binding: Option<B>,
    pub children: CommandTreePart<'a, B>,
}

/// A command or an argument within the tree.
pub enum CommandTreeEither<'b, 'a, B> {
    Member(&'b CommandTreeMember<'a, B>),
    Argument(&'b CommandTreeArgument<'a>),
}

impl<'b, 'a, B> Clone for CommandTreeEither<'b, 'a, B> {
    fn clone(&self) -> (r: Self)
        ensures
            r == *self,
    {
        match self {
            CommandTreeEither::Member(m) => CommandTreeEither::Member(m),
            CommandTreeEither::Argument(a) => CommandTreeEither::Argument(a),
        }
    }
}

/// The index of the first member named `word`, if there is one.
pub open spec fn first_named<'a, B>(members: Seq<CommandTreeMember<'a, B>>, word: Seq<char>) -> Option<
    int,
> {
    if exists|i: int|
        0 <= i < members.len() && (#[trigger] members[i]).name@ == word && forall|j: int|
            0 <= j < i ==> (#[trigger] members[j]).name@ != word {
        Some(
            choose|i: int|
                0 <= i < members.len() && (#[trigger] members[i]).name@ == word && forall|j: int|
                    0 <= j < i ==> (#[trigger] members[j]).name@ != word,
        )
    } else {
        None
    }
}

proof fn lemma_first_named<'a, B>(members: Seq<CommandTreeMember<'a, B>>, word: Seq<char>, p: int)
    requires
        0 <= p <= members.len(),
        forall|j: int| 0 <= j < p ==> (#[trigger] members[j]).name@ != word,
    ensures
        p < members.len() && members[p].name@ == word ==> first_named(members, word) == Some(p),
        p == members.len() ==> first_named(members, word) is None,
{
    if p < members.len() && members[p].name@ == word {
        let q = choose|i: int|
            0 <= i < members.len() && (#[trigger] members[i]).name@ == word && forall|j: int|
                0 <= j < i ==> (#[trigger] members[j]).name@ != word;
        assert(members[p].name@ == word);
        if q < p {
            assert(members[q].name@ != word);
        }
        if p < q {
            assert(members[p].name@ != word);
        }
    }
}

/// Finds the first member of `members` named `word`.
fn find_member<'b, 'a, B>(members: &'b Vec<CommandTreeMember<'a, B>>, word: &str) -> (r: Option<
    &'b CommandTreeMember<'a, B>,
>)
    ensures
        match first_named(members@, word@) {
            Some(i) => r == Some(&members@[i]),
            None => r is None,
        },
{
    let mut i: usize = 0;
    while i < members.len()
        invariant
            i <= members@.len(),
            forall|j: int| 0 <= j < i ==> (#[trigger] members@[j]).name@ != word@,
        decreases members@.len() - i,
    {
        if members[i].matches(word) {
            proof {
                lemma_first_named(members@, word@, i as int);
            }
            return Some(&members[i]);
        }
        i = i + 1;
    }
    proof {
        lemma_first_named(members@, word@, i as int);
    }
    None
}

impl<'a, B> CommandTreeMember<'a, B> {
    /// A command with arguments `args` and the action `binding`.
    pub fn binding(name: &'a str, desc: &'a str, args: Vec<CommandTreeArgument<'a>>, binding: B) -> (r:
        Self)
        ensures
            r.name == name,
            r.desc == desc,
            r.binding == Some(binding),
            r.children == CommandTreePart::<'a, B>::Arguments(args),
    {
        CommandTreeMember { desc, name, binding: Some(binding), children: CommandTreePart::Arguments(args) }
    }

    /// A command with arguments `args` and no action bound to it.
    pub fn single(name: &'a str, desc: &'a str, args: Vec<CommandTreeArgument<'a>>) -> (r: Self)
        ensures
            r.name == name,
            r.desc == desc,
            r.binding is None,
            r.children == CommandTreePart::<'a, B>::Arguments(args),
    {
        CommandTreeMember { desc, name, binding: None, children: CommandTreePart::Arguments(args) }
    }

    /// A group of the commands `children`.
    pub fn group(name: &'a str, desc: &'a str, children: Vec<CommandTreeMember<'a, B>>) -> (r: Self)
        ensures
            r.name == name,
            r.desc == desc,
            r.binding is None,
            r.children == CommandTreePart::<'a, B>::Members(children),
    {
        CommandTreeMember { desc, name, binding: None, children: CommandTreePart::Members(children) }
    }

    /// Whether this member is a group of commands.
    pub open spec fn spec_is_group(&self) -> bool {
        self.children is Members
    }

    /// The name of the member.
    pub open spec fn spec_name(&self) -> &'a str {
        self.name
    }

    /// Whether this member is a group of commands.
    pub fn is_group(&self) -> (r: bool)
        ensures
            r == self.spec_is_group(),
    {
        match self.children {
            CommandTreePart::Members(_) => true,
            CommandTreePart::Arguments(_) => false,
        }
    }

    /// Whether the member is named `word`.
    pub fn matches(&self, word: &str) -> (r: bool)
        ensures
            r == (self.name@ == word@),
    {
        str_equal(self.name, word)
    }

    /// The member's name, when it completes `word` (starts with it).
    pub fn get_completion(&self, word: &str) -> (r: Option<&'a str>)
        ensures
            r == (if starts_with(self.name@, word@) {
                Some(self.name)
            } else {
                None
            }),
    {
        if str_starts_with(self.name, word) {
            Some(self.name)
        } else {
            None
        }
    }

    /// The first child that can stand for `word`: for a group the first
    /// member named `word`, for a command its first argument.
    pub fn find_match<'b>(&'b self, word: &str) -> (r: Option<CommandTreeEither<'b, 'a, B>>)
        ensures
            r == spec_find_match(CommandTreeEither::Member(self), word@),
    {
        match &self.children {
            CommandTreePart::Arguments(args) => {
                if args.len() > 0 {
                    let arg = &args[0];
                    let m = arg.matches(word);
                    if m {
                        return Some(CommandTreeEither::Argument(arg));
                    }
                }
                None
            },
            CommandTreePart::Members(members) => {
                match find_member(members, word) {
                    Some(m) => Some(CommandTreeEither::Member(m)),
                    None => None,
                }
            },
        }
    }
}

/// What `find_match` gives for `word` below `node`.
pub open spec fn spec_find_match<'b, 'a, B>(node: CommandTreeEither<'b, 'a, B>, word: Seq<char>) -> Option<
    CommandTreeEither<'b, 'a, B>,
> {
    match node {
        CommandTreeEither::Member(m) => match m.children {
            CommandTreePart::Arguments(args) => if args@.len() > 0 {
                Some(CommandTreeEither::Argument(&args@[0]))
            } else {
                None
            },
            CommandTreePart::Members(members) => match first_named(members@, word) {
                Some(i) => Some(CommandTreeEither::Member(&members@[i])),
                None => None,
            },
        },
        CommandTreeEither::Argument(_) => None,
    }
}

/// The member that `text` leads to from `node`, with the text left over
/// as its arguments: from a command, or when `text` is blank, the node
/// itself; from a group, the member named by the first word of `text`,
/// followed further with the rest.
pub open spec fn spec_traverse_to_member<'b, 'a, B>(
    node: CommandTreeEither<'b, 'a, B>,
    text: Seq<char>,
) -> Option<(CommandTreeMember<'a, B>, Seq<char>)>
    decreases text.len(),
{
    match node {
        CommandTreeEither::Argument(_) => None,
        CommandTreeEither::Member(m) => {
            if is_blank(text) || !m.spec_is_group() {
                Some((*m, text))
            } else {
                let (word, rest) = first_word(text);
                match spec_find_match(node, word) {
                    Some(next) => if rest.len() < text.len() {
                        spec_traverse_to_member(next, rest)
                    } else {
                        None
                    },
                    None => None,
                }
            }
        },
    }
}

/// The node that `text` leads to from `node`, where completion goes on:
/// from a group, the member named by the first word, followed further; from
/// a command, the argument at the position of the first empty word; from an
/// argument, itself when nothing but whitespace follows.
pub open spec fn spec_traverse_to<'b, 'a, B>(node: CommandTreeEither<'b, 'a, B>, text: Seq<char>) -> Option<
    CommandTreeEither<'b, 'a, B>,
>
    decreases text.len(),
{
    match node {
        CommandTreeEither::Member(m) => match m.children {
            CommandTreePart::Members(_) => {
                let (word, rest) = first_word(text);
                if word.len() == 0 {
                    Some(node)
                } else {
                    match spec_find_match(node, word) {
                        Some(next) => if rest.len() < text.len() {
                            spec_traverse_to(next, rest)
                        } else {
                            None
                        },
                        None => None,
                    }
                }
            },
            CommandTreePart::Arguments(args) => match argument_at_empty_word(args@, text, 0) {
                Some(i) => Some(CommandTreeEither::Argument(&args@[i])),
                None => None,
            },
        },
        CommandTreeEither::Argument(_) => if is_blank(text) {
            Some(node)
        } else {
            None
        },
    }
}

/// Taking the words of `text` one by one against the arguments from
/// position `i` on, the position of the first argument met with an empty
/// word.
pub open spec fn argument_at_empty_word<'a>(
    args: Seq<CommandTreeArgument<'a>>,
    text: Seq<char>,
    i: int,
) -> Option<int>
    decreases args.len() - i,
{
    if i < 0 || i >= args.len() {
        None
    } else if first_word(text).0.len() == 0 {
        Some(i)
    } else {
        argument_at_empty_word(args, first_word(text).1, i + 1)
    }
}

/// The argument met with an empty word is the one just past the words of
/// `text`: from position `i`, the one at `i` plus the number of words, if
/// there is an argument there.
pub proof fn lemma_argument_at_word_count<'a>(
    args: Seq<CommandTreeArgument<'a>>,
    text: Seq<char>,
    i: int,
)
    requires
        0 <= i,
    ensures
        argument_at_empty_word(args, text, i) == (if i + words(text).len() < args.len() {
            Some(i + words(text).len())
        } else {
            None
        }),
    decreases args.len() - i,
{
    law_first_word(text);
    if i < args.len() && first_word(text).0.len() != 0 {
        lemma_argument_at_word_count(args, first_word(text).1, i + 1);
        assert(words(text).len() == 1 + words(first_word(text).1).len());
    }
}

/// In a group, the member a word leads to is a member of the group named
/// by that word, and no member before it bears that name; a word that names
/// no member of the group leads nowhere.
pub proof fn law_group_word_names_member<'b, 'a, B>(m: &'b CommandTreeMember<'a, B>, word: Seq<char>)
    requires
        m.children is Members,
    ensures
        ({
            let ms = m.children->Members_0@;
            match spec_find_match(CommandTreeEither::Member(m), word) {
                Some(CommandTreeEither::Member(c)) => c.name@ == word && exists|i: int|
                    0 <= i < ms.len() && *c == ms[i] && forall|j: int|
                        0 <= j < i ==> (#[trigger] ms[j]).name@ != word,
                Some(CommandTreeEither::Argument(_)) => false,
                None => forall|i: int| 0 <= i < ms.len() ==> (#[trigger] ms[i]).name@ != word,
            }
        }),
{
    let ms = m.children->Members_0@;
    match first_named(ms, word) {
        Some(i) => {
            assert(0 <= i < ms.len() && ms[i].name@ == word && forall|j: int|
                0 <= j < i ==> (#[trigger] ms[j]).name@ != word);
        },
        None => {
            assert forall|i: int| 0 <= i < ms.len() implies (#[trigger] ms[i]).name@ != word by {
                if ms[i].name@ == word {
                    lemma_first_named_exists(ms, word, i);
                }
            }
        },
    }
}

/// Where some member is named `word`, a first one is.
proof fn lemma_first_named_exists<'a, B>(ms: Seq<CommandTreeMember<'a, B>>, word: Seq<char>, i: int)
    requires
        0 <= i < ms.len(),
        ms[i].name@ == word,
    ensures
        first_named(ms, word) is Some,
    decreases i,
{
    if exists|j: int| 0 <= j < i && (#[trigger] ms[j]).name@ == word {
        let j = choose|j: int| 0 <= j < i && (#[trigger] ms[j]).name@ == word;
        lemma_first_named_exists(ms, word, j);
    } else {
        assert(0 <= i < ms.len() && (#[trigger] ms[i]).name@ == word && forall|j: int|
            0 <= j < i ==> (#[trigger] ms[j]).name@ != word);
    }
}

/// A line whose word after a group names none of the group's members
/// names no command: resolving it finds nothing.
pub proof fn law_unknown_member_not_found<'b, 'a, B>(m: &'b CommandTreeMember<'a, B>, text: Seq<char>)
    requires
        m.children is Members,
        !is_blank(text),
        forall|i: int|
            0 <= i < m.children->Members_0@.len() ==> (#[trigger] m.children->Members_0@[i]).name@
                != first_word(text).0,
    ensures
        spec_traverse_to_member(CommandTreeEither::Member(m), text) is None,
{
    let ms = m.children->Members_0@;
    if first_named(ms, first_word(text).0) is Some {
        let k = first_named(ms, first_word(text).0)->0;
        assert(ms[k].name@ == first_word(text).0);
    }
}

/// A line whose first word names no top-level command names no command:
/// resolving it finds nothing.
pub proof fn law_unknown_command_not_found<'a, B>(ms: Seq<CommandTreeMember<'a, B>>, text: Seq<char>)
    requires
        forall|i: int| 0 <= i < ms.len() ==> (#[trigger] ms[i]).name@ != first_word(text).0,
    ensures
        spec_tree_traverse(ms, text) is None,
{
    if first_named(ms, first_word(text).0) is Some {
        let k = first_named(ms, first_word(text).0)->0;
        assert(ms[k].name@ == first_word(text).0);
    }
}

/// Completion within a command goes to the argument at the position of
/// the word being typed: after `k` whole words, the argument at `k`, and
/// nothing once the words outnumber the arguments.
pub proof fn law_command_completes_argument_at_word_count<'b, 'a, B>(
    m: &'b CommandTreeMember<'a, B>,
    text: Seq<char>,
)
    requires
        m.children is Arguments,
    ensures
        ({
            let args = m.children->Arguments_0@;
            let k = words(text).len();
            spec_traverse_to(CommandTreeEither::Member(m), text) == if k < args.len() {
                Some(CommandTreeEither::<'b, 'a, B>::Argument(&args[k as int]))
            } else {
                None
            }
        }),
{
    lemma_argument_at_word_count(m.children->Arguments_0@, text, 0);
}

impl<'b, 'a, B> CommandTreeEither<'b, 'a, B> {
    /// The node that `text` leads to from this one; see `spec_traverse_to`.
    pub fn traverse_to(self, text: &str) -> (r: Option<CommandTreeEither<'b, 'a, B>>)
        ensures
            r == spec_traverse_to(self, text@),
        decreases text@.len(),
    {
        match self {
            CommandTreeEither::Member(member) => match &member.children {
                CommandTreePart::Members(_) => {
                    let (word, rest) = split_first_word(text);
                    if word.unicode_len() == 0 {
                        return Some(self);
                    }
                    proof {
                        if is_blank(text@) {
                            assert(first_word(text@).0.len() == 0);
                        }
                        lemma_first_word_shrinks(text@);
                    }
                    match self.find_match(word) {
                        Some(next) => next.traverse_to(rest),
                        None => None,
                    }
                },
                CommandTreePart::Arguments(children) => {
                    let (mut word, mut rest) = split_first_word(text);
                    let ghost mut current = text@;
                    let mut i: usize = 0;
                    while i < children.len()
                        invariant
                            i <= children@.len(),
                            self == CommandTreeEither::Member(member),
                            member.children == CommandTreePart::<'a, B>::Arguments(*children),
                            (word@, rest@) == first_word(current),
                            argument_at_empty_word(children@, text@, 0) == argument_at_empty_word(
                                children@,
                                current,
                                i as int,
                            ),
                        decreases children@.len() - i,
                    {
                        if word.unicode_len() == 0 {
                            return Some(CommandTreeEither::Argument(&children[i]));
                        }
                        proof {
                            current = rest@;
                        }
                        let (w, r) = split_first_word(rest);
                        word = w;
                        rest = r;
                        i = i + 1;
                    }
                    None
                },
            },
            CommandTreeEither::Argument(_) => {
                if is_blank_str(text) {
                    Some(self)
                } else {
                    None
                }
            },
        }
    }

    /// The member that `text` leads to from this node, with the text left
    /// over; see `spec_traverse_to_member`.
    pub fn traverse_to_member(self, text: &str) -> (r: Option<(&'b CommandTreeMember<'a, B>, String)>)
        ensures
            match r {
                Some((m, rest)) => spec_traverse_to_member(self, text@) == Some((*m, rest@)),
                None => spec_traverse_to_member(self, text@) is None,
            },
        decreases text@.len(),
    {
        match self {
            CommandTreeEither::Argument(_) => return None,
            CommandTreeEither::Member(member) => {
                if is_blank_str(text) || !member.is_group() {
                    return Some((member, text.to_owned()));
                }
            },
        }
        let (word, rest) = split_first_word(text);
        proof {
            lemma_first_word_shrinks(text@);
        }
        match self.find_match(word) {
            Some(next) => next.traverse_to_member(rest),
            None => None,
        }
    }

    /// The first child of this node that can stand for `word`.
    pub fn find_match(&self, word: &str) -> (r: Option<CommandTreeEither<'b, 'a, B>>)
        ensures
            r == spec_find_match(*self, word@),
    {
        match self {
            CommandTreeEither::Member(member) => member.find_match(word),
            CommandTreeEither::Argument(_) => None,
        }
    }
}

/// The commands the client knows, at the top level.
pub struct CommandTree<'a, B>(pub Vec<CommandTreeMember<'a, B>>);

impl<'a, B> CommandTree<'a, B> {
    /// The top-level command named `word`, if there is one.
    pub fn find_match<'b>(&'b self, word: &str) -> (r: Option<CommandTreeEither<'b, 'a, B>>)
        ensures
            r == (match first_named(self.0@, word@) {
                Some(i) => Some(CommandTreeEither::Member(&self.0@[i])),
                None => None,
            }),
    {
        match find_member(&self.0, word) {
            Some(m) => Some(CommandTreeEither::Member(m)),
            None => None,
        }
    }

    /// The node that the words `first`, then `rest`, lead to, for
    /// completion.
    pub fn traverse_to<'b>(&'b self, first: &str, rest: &str) -> (r: Option<
        CommandTreeEither<'b, 'a, B>,
    >)
        ensures
            r == (match first_named(self.0@, first@) {
                Some(i) => spec_traverse_to(CommandTreeEither::Member(&self.0@[i]), rest@),
                None => None,
            }),
    {
        let node = self.find_match(first);
        match node {
            None => None,
            Some(n) => n.traverse_to(rest),
        }
    }

    /// The command that the line `text` names, with the text left over as
    /// its arguments. `None` for a blank line or an unknown command.
    pub fn traverse_to_member<'b>(&'b self, text: &str) -> (r: Option<
        (&'b CommandTreeMember<'a, B>, String),
    >)
        ensures
            match r {
                Some((m, rest)) => spec_tree_traverse(self.0@, text@) == Some((*m, rest@)),
                None => spec_tree_traverse(self.0@, text@) is None,
            },
    {
        if is_blank_str(text) {
            return None;
        }
        let (word, rest) = split_first_word(text);
        match self.find_match(word) {
            Some(next) => next.traverse_to_member(rest),
            None => None,
        }
    }
}

/// What running a typed line comes to.
#[derive(Debug)]
pub enum CommandResolution<B> {
    /// No command is named by the line.
    NotFound,
    /// The command has no action bound to it.
    NoBinding,
    /// Run this action with these arguments.
    Run(B, String),
}

impl<'a, B: Copy> CommandTree<'a, B> {
    /// What running the line `line` comes to: the action bound to the
    /// command it names, with the rest of the line as its arguments.
    pub fn resolve(&self, line: &str) -> (r: CommandResolution<B>)
        ensures
            match spec_tree_traverse(self.0@, line@) {
                None => r is NotFound,
                Some((m, rest)) => match m.binding {
                    None => r is NoBinding,
                    Some(b) => r matches CommandResolution::Run(rb, args) && rb == b && args@ == rest,
                },
            },
    {
        match self.traverse_to_member(line) {
            None => CommandResolution::NotFound,
            Some((member, args)) => match member.binding {
                None => CommandResolution::NoBinding,
                Some(b) => CommandResolution::Run(b, args),
            },
        }
    }
}

/// The command that the line `text` names among `members`, with the text
/// left over; `None` for a blank line or an unknown command.
pub open spec fn spec_tree_traverse<'a, B>(members: Seq<CommandTreeMember<'a, B>>, text: Seq<char>) -> Option<
    (CommandTreeMember<'a, B>, Seq<char>),
> {
    if is_blank(text) {
        None
    } else {
        let (word, rest) = first_word(text);
        match first_named(members, word) {
            Some(i) => spec_traverse_to_member(CommandTreeEither::Member(&members[i]), rest),
            None => None,
        }
    }
}


// ======================================
// => Help text
// ======================================
/// `n` spaces.
pub open spec fn spaces(n: nat) -> Seq<char> {
    Seq::new(n, |i: int| ' ')
}

/// The number of bytes of the UTF-8 encoding of `s`, what `str::len` counts.
pub open spec fn utf8_len(s: Seq<char>) -> int {
    encode_utf8(s).len() as int
}

/// Appends `n` spaces to `out`.
fn push_spaces(out: &mut String, n: usize)
    ensures
        final(out)@ == old(out)@ + spaces(n as nat),
{
    proof {
        reveal_strlit(" ");
    }
    let mut i: usize = 0;
    while i < n
        invariant
            i <= n,
            out@ == old(out)@ + spaces(i as nat),
        decreases n - i,
    {
        proof {
            reveal_strlit(" ");
        }
        out.append(" ");
        i = i + 1;
        assert(out@ =~= old(out)@ + spaces(i as nat));
    }
}

/// The help forms of `args`, each after a space.
pub open spec fn args_suffix<'a>(args: Seq<CommandTreeArgument<'a>>) -> Seq<char>
    decreases args.len(),
{
    if args.len() == 0 {
        Seq::empty()
    } else {
        args_suffix(args.drop_last()) + seq![' '] + args.last().spec_help()
    }
}

/// The first line of a group's help: its name and " SUBCOMMAND".
pub open spec fn group_command<'a, B>(m: CommandTreeMember<'a, B>) -> Seq<char> {
    m.name@ + seq![' ', 'S', 'U', 'B', 'C', 'O', 'M', 'M', 'A', 'N', 'D']
}

/// Whether the help of `m`, indented by `depth` and padded to column `fill`,
/// can be written: each group's line must fit before the fill column, and
/// the widths stay within machine integers.
pub open spec fn help_fits<'a, B>(m: CommandTreeMember<'a, B>, depth: nat, fill: nat) -> bool
    decreases m, 0nat,
{
    match m.children {
        CommandTreePart::Members(ms) => {
            &&& depth + utf8_len(group_command(m)) + 1 <= fill
            &&& children_fit(ms@, depth + 1, fill)
        },
        CommandTreePart::Arguments(args) => depth + utf8_len(m.name@ + args_suffix(args@)) + 1
            <= usize::MAX,
    }
}

/// Whether the help of each member of `ms` can be written.
pub open spec fn children_fit<'a, B>(ms: Seq<CommandTreeMember<'a, B>>, depth: nat, fill: nat) -> bool
    decreases ms, 1nat,
{
    if ms.len() == 0 {
        true
    } else {
        help_fits(ms[0], depth, fill) && children_fit(ms.drop_first(), depth, fill)
    }
}

/// The help of `m`, indented by `depth` spaces, with descriptions starting
/// at column `fill` where the command is short enough, and the help of a
/// group's members below it, one level deeper.
pub open spec fn member_help<'a, B>(m: CommandTreeMember<'a, B>, depth: nat, fill: nat) -> Seq<char>
    decreases m, 0nat,
{
    match m.children {
        CommandTreePart::Members(ms) => {
            let command = group_command(m);
            let dofill = fill - depth - utf8_len(command) - 1;
            let padded = if dofill > 0 {
                command + spaces(dofill as nat)
            } else {
                command
            };
            spaces(depth) + padded + seq![' '] + m.desc@ + children_help(ms@, depth + 1, fill)
        },
        CommandTreePart::Arguments(args) => {
            let command = m.name@ + args_suffix(args@);
            let fill_remove = depth + utf8_len(command) + 1;
            let padded = if fill_remove <= fill {
                command + spaces((fill - fill_remove) as nat)
            } else {
                command
            };
            spaces(depth) + padded + seq![' '] + m.desc@
        },
    }
}

/// The help of each member of `ms`, each on a line of its own.
pub open spec fn children_help<'a, B>(ms: Seq<CommandTreeMember<'a, B>>, depth: nat, fill: nat) -> Seq<
    char,
>
    decreases ms, 1nat,
{
    if ms.len() == 0 {
        Seq::empty()
    } else {
        seq!['\n'] + member_help(ms[0], depth, fill) + children_help(ms.drop_first(), depth, fill)
    }
}

proof fn lemma_member_help_group<'a, B>(m: CommandTreeMember<'a, B>, ms: Vec<CommandTreeMember<'a, B>>, depth: nat, fill: nat)
    requires
        m.children == CommandTreePart::<'a, B>::Members(ms),
    ensures
        member_help(m, depth, fill) == ({
            let command = group_command(m);
            let dofill = fill - depth - utf8_len(command) - 1;
            let padded = if dofill > 0 {
                command + spaces(dofill as nat)
            } else {
                command
            };
            spaces(depth) + padded + seq![' '] + m.desc@ + children_help(ms@, depth + 1, fill)
        }),
        help_fits(m, depth, fill) == (depth + utf8_len(group_command(m)) + 1 <= fill && children_fit(ms@, depth + 1, fill)),
{
}

proof fn lemma_member_help_args<'a, B>(m: CommandTreeMember<'a, B>, args: Vec<CommandTreeArgument<'a>>, depth: nat, fill: nat)
    requires
        m.children == CommandTreePart::<'a, B>::Arguments(args),
    ensures
        member_help(m, depth, fill) == ({
            let command = m.name@ + args_suffix(args@);
            let fill_remove = depth + utf8_len(command) + 1;
            let padded = if fill_remove <= fill {
                command + spaces((fill - fill_remove) as nat)
            } else {
                command
            };
            spaces(depth) + padded + seq![' '] + m.desc@
        }),
        help_fits(m, depth, fill) == (depth + utf8_len(m.name@ + args_suffix(args@)) + 1 <= usize::MAX),
{
}

proof fn lemma_children_take<'a, B>(ms: Seq<CommandTreeMember<'a, B>>, i: int, depth: nat, fill: nat)
    requires
        0 <= i < ms.len(),
    ensures
        children_help(ms.take(i + 1), depth, fill) == children_help(ms.take(i), depth, fill)
            + seq!['\n'] + member_help(ms[i], depth, fill),
        children_fit(ms.take(i + 1), depth, fill) == (children_fit(ms.take(i), depth, fill)
            && help_fits(ms[i], depth, fill)),
    decreases i,
{
    if i > 0 {
        lemma_children_take(ms.drop_first(), i - 1, depth, fill);
        assert(ms.take(i + 1).drop_first() =~= ms.drop_first().take(i));
        assert(ms.take(i).drop_first() =~= ms.drop_first().take(i - 1));
    } else {
        assert(ms.take(1).drop_first() =~= Seq::<CommandTreeMember<'a, B>>::empty());
        assert(ms.take(0) =~= Seq::<CommandTreeMember<'a, B>>::empty());
    }
}

impl<'a, B> CommandTreeMember<'a, B> {
    /// The help of this member at indentation `depth`, padded to column
    /// `fill`; `None` when a group's line does not fit before `fill`.
    pub fn help_fmt(&self, depth: usize, fill: usize) -> (r: Option<String>)
        ensures
            r is Some <==> help_fits(*self, depth as nat, fill as nat),
            r matches Some(s) ==> s@ == member_help(*self, depth as nat, fill as nat),
        decreases self,
    {
        proof {
            reveal_strlit(" SUBCOMMAND");
            reveal_strlit(" ");
            reveal_strlit("\n");
        }
        let mut out = String::new();
        match &self.children {
            CommandTreePart::Members(members) => {
                let mut command = String::from_str(self.name);
                command.append(" SUBCOMMAND");
                assert(command@ == group_command(*self));
                let len = str_byte_len(command.as_str());
                if depth > fill || len > fill - depth || fill - depth - len < 1 {
                    return None;
                }
                let dofill = fill - depth - len - 1;
                if dofill > 0 {
                    push_spaces(&mut command, dofill);
                }
                push_spaces(&mut out, depth);
                out.append(command.as_str());
                out.append(" ");
                out.append(self.desc);
                let ghost head = out@;
                assert(head =~= spaces(depth as nat) + (if dofill > 0 {
                    group_command(*self) + spaces(dofill as nat)
                } else {
                    group_command(*self)
                }) + seq![' '] + self.desc@);
                let mut i: usize = 0;
                assert(members@.take(0) =~= Seq::<CommandTreeMember<'a, B>>::empty());
                while i < members.len()
                    invariant
                        i <= members@.len(),
                        depth < fill,
                        self.children == CommandTreePart::<'a, B>::Members(*members),
                        out@ == head + children_help(
                            members@.take(i as int),
                            (depth + 1) as nat,
                            fill as nat,
                        ),
                        children_fit(members@.take(i as int), (depth + 1) as nat, fill as nat),
                    decreases members@.len() - i,
                {
                    proof {
                        reveal_strlit("\n");
                        lemma_children_take(members@, i as int, (depth + 1) as nat, fill as nat);
                        assert(decreases_to!(*self => self.children));
                        assert(decreases_to!(self.children => self.children->Members_0));
                        assert(decreases_to!(*members => members@));
                        assert(decreases_to!(members@ => members@[i as int]));
                    }
                    let child = members[i].help_fmt(depth + 1, fill);
                    match child {
                        Some(text) => {
                            out.append("\n");
                            out.append(text.as_str());
                        },
                        None => {
                            proof {
                                lemma_children_fit_prefix(
                                    members@,
                                    i + 1,
                                    (depth + 1) as nat,
                                    fill as nat,
                                );
                            }
                            return None;
                        },
                    }
                    i = i + 1;
                    assert(out@ =~= head + children_help(
                        members@.take(i as int),
                        (depth + 1) as nat,
                        fill as nat,
                    ));
                }
                assert(members@.take(members@.len() as int) =~= members@);
                proof {
                    lemma_member_help_group(*self, *members, depth as nat, fill as nat);
                }
                assert(out@ =~= member_help(*self, depth as nat, fill as nat));
            },
            CommandTreePart::Arguments(args) => {
                let mut command = String::from_str(self.name);
                let mut i: usize = 0;
                while i < args.len()
                    invariant
                        i <= args@.len(),
                        command@ == self.name@ + args_suffix(args@.take(i as int)),
                    decreases args@.len() - i,
                {
                    proof {
                        reveal_strlit(" ");
                    }
                    command.append(" ");
                    let help = args[i].help();
                    command.append(help.as_str());
                    proof {
                        assert(args@.take(i + 1).drop_last() =~= args@.take(i as int));
                        assert(args@.take(i + 1).last() == args@[i as int]);
                    }
                    i = i + 1;
                    assert(command@ =~= self.name@ + args_suffix(args@.take(i as int)));
                }
                assert(args@.take(args@.len() as int) =~= args@);
                let len = str_byte_len(command.as_str());
                if depth > usize::MAX - 1 || len > usize::MAX - 1 - depth {
                    return None;
                }
                let fill_remove = depth + len + 1;
                if fill_remove <= fill {
                    push_spaces(&mut command, fill - fill_remove);
                }
                push_spaces(&mut out, depth);
                out.append(command.as_str());
                out.append(" ");
                out.append(self.desc);
                proof {
                    lemma_member_help_args(*self, *args, depth as nat, fill as nat);
                }
                assert(out@ =~= member_help(*self, depth as nat, fill as nat));
            },
        }
        Some(out)
    }
}

/// If the first `i` members do not all fit, neither do all of them.
proof fn lemma_children_fit_prefix<'a, B>(
    ms: Seq<CommandTreeMember<'a, B>>,
    i: int,
    depth: nat,
    fill: nat,
)
    requires
        0 <= i <= ms.len(),
        !children_fit(ms.take(i), depth, fill),
    ensures
        !children_fit(ms, depth, fill),
    decreases i,
{
    if i > 0 {
        assert(ms.take(i).drop_first() =~= ms.drop_first().take(i - 1));
        if help_fits(ms[0], depth, fill) {
            lemma_children_fit_prefix(ms.drop_first(), i - 1, depth, fill);
        }
    }
}

/// The help of the whole tree: each top-level member at indentation 0,
/// padded to column 35, followed by a line break.
pub open spec fn tree_help<'a, B>(ms: Seq<CommandTreeMember<'a, B>>) -> Seq<char>
    decreases ms.len(),
{
    if ms.len() == 0 {
        Seq::empty()
    } else {
        tree_help(ms.drop_last()) + member_help(ms.last(), 0, 35) + seq!['\n']
    }
}

/// Whether the help of every top-level member can be written.
pub open spec fn tree_fits<'a, B>(ms: Seq<CommandTreeMember<'a, B>>) -> bool {
    forall|i: int| 0 <= i < ms.len() ==> help_fits(#[trigger] ms[i], 0, 35)
}

impl<'a, B> CommandTree<'a, B> {
    /// The help text of the whole tree, as the client prints it for `help`;
    /// `None` when a group's line does not fit before the fill column.
    pub fn to_display_string(&self) -> (r: Option<String>)
        ensures
            r is Some <==> tree_fits(self.0@),
            r matches Some(s) ==> s@ == tree_help(self.0@),
    {
        proof {
            reveal_strlit("\n");
        }
        let mut out = String::new();
        let mut i: usize = 0;
        while i < self.0.len()
            invariant
                i <= self.0@.len(),
                out@ == tree_help(self.0@.take(i as int)),
                tree_fits(self.0@.take(i as int)),
            decreases self.0@.len() - i,
        {
            proof {
                reveal_strlit("\n");
            }
            match self.0[i].help_fmt(0, 35) {
                Some(text) => {
                    out.append(text.as_str());
                    out.append("\n");
                },
                None => {
                    return None;
                },
            }
            proof {
                assert(self.0@.take(i + 1).drop_last() =~= self.0@.take(i as int));
                assert forall|j: int| 0 <= j < i + 1 implies help_fits(
                    #[trigger] self.0@.take(i + 1)[j],
                    0,
                    35,
                ) by {
                    if j < i {
                        assert(self.0@.take(i + 1)[j] == self.0@.take(i as int)[j]);
                    }
                }
            }
            i = i + 1;
        }
        assert(self.0@.take(self.0@.len() as int) =~= self.0@);
        Some(out)
    }
}

// ======================================
// => Completion
// ======================================
/// The names among `members` that complete `word` (start with it), in
/// order.
pub open spec fn member_completions<'a, B>(members: Seq<CommandTreeMember<'a, B>>, word: Seq<char>) -> Seq<
    Seq<char>,
>
    decreases members.len(),
{
    if members.len() == 0 {
        Seq::empty()
    } else {
        let rest = member_completions(members.drop_last(), word);
        if starts_with(members.last().name@, word) {
            rest.push(members.last().name@)
        } else {
            rest
        }
    }
}

/// The views of a list of strings.
pub open spec fn string_views(v: Seq<String>) -> Seq<Seq<char>> {
    v.map_values(|s: String| s@)
}

/// What completing a word comes to.
#[derive(Debug)]
pub enum CompletionPlan {
    /// No completion at all.
    Nothing,
    /// These candidates.
    Candidates(Vec<String>),
    /// The known channel names that complete the word: the caller looks
    /// them up and picks them with `ArgumentType::channel_completions`.
    ChannelNames,
}

/// What completing a word comes to, with texts as characters.
pub enum PlanView {
    Nothing,
    Candidates(Seq<Seq<char>>),
    ChannelNames,
}

/// The view of a completion plan.
pub open spec fn plan_view(p: CompletionPlan) -> PlanView {
    match p {
        CompletionPlan::Nothing => PlanView::Nothing,
        CompletionPlan::Candidates(c) => PlanView::Candidates(string_views(c@)),
        CompletionPlan::ChannelNames => PlanView::ChannelNames,
    }
}

/// What completing `word` after the node `node` comes to: for a group the
/// names of its members that complete the word; for a command nothing (its
/// arguments offer no completion themselves); for an argument the channel
/// names when it takes one, else nothing.
pub open spec fn spec_completions_after<'b, 'a, B>(node: CommandTreeEither<'b, 'a, B>, word: Seq<char>) -> PlanView {
    match node {
        CommandTreeEither::Member(m) => match m.children {
            CommandTreePart::Members(ms) => PlanView::Candidates(member_completions(ms@, word)),
            CommandTreePart::Arguments(_) => PlanView::Candidates(Seq::empty()),
        },
        CommandTreeEither::Argument(a) => if a.spec_argument_type() == ArgumentType::ChannelName {
            PlanView::ChannelNames
        } else {
            PlanView::Candidates(Seq::empty())
        },
    }
}

/// What completing `word` comes to, where `before` is the line before it:
/// on the first word, the commands that it starts; later, what the node
/// reached by the words before it offers.
pub open spec fn spec_complete<'a, B>(members: Seq<CommandTreeMember<'a, B>>, before: Seq<char>, word: Seq<char>) -> PlanView {
    let (first, rest) = first_word(before);
    if first.len() == 0 {
        PlanView::Candidates(member_completions(members, word))
    } else {
        match first_named(members, first) {
            Some(i) => match spec_traverse_to(CommandTreeEither::Member(&members[i]), rest) {
                Some(node) => spec_completions_after(node, word),
                None => PlanView::Nothing,
            },
            None => PlanView::Nothing,
        }
    }
}

/// The names among `members` that complete `word`.
fn member_completions_of<'a, B>(members: &Vec<CommandTreeMember<'a, B>>, word: &str) -> (r: Vec<String>)
    ensures
        string_views(r@) == member_completions(members@, word@),
{
    let mut r: Vec<String> = Vec::new();
    let mut i: usize = 0;
    while i < members.len()
        invariant
            0 <= i <= members@.len(),
            string_views(r@) == member_completions(members@.take(i as int), word@),
        decreases members@.len() - i,
    {
        let ghost before = r@;
        proof {
            assert(members@.take(i + 1).drop_last() =~= members@.take(i as int));
            assert(members@.take(i + 1).last() == members@[i as int]);
        }
        match members[i].get_completion(word) {
            Some(name) => {
                r.push(name.to_string());
                assert(string_views(r@) =~= string_views(before).push(name@));
            },
            None => {},
        }
        i = i + 1;
    }
    assert(members@.take(members@.len() as int) =~= members@);
    r
}

impl<'a> CommandTreeArgument<'a> {
    /// An argument offers no completion of its own.
    pub fn get_completion(&self, word: &str) -> (r: Option<String>)
        ensures
            r is None,
    {
        None
    }
}

impl<'a, B> CommandTreeMember<'a, B> {
    /// The completions of `word` after this member: the names of its
    /// members that complete the word, or, for a command, none.
    pub fn add_completions_after(&self, word: &str) -> (r: Vec<String>)
        ensures
            match self.children {
                CommandTreePart::Members(ms) => string_views(r@) == member_completions(ms@, word@),
                CommandTreePart::Arguments(_) => r@.len() == 0,
            },
    {
        match &self.children {
            CommandTreePart::Members(members) => member_completions_of(members, word),
            CommandTreePart::Arguments(arguments) => {
                let mut r: Vec<String> = Vec::new();
                let mut i: usize = 0;
                while i < arguments.len()
                    invariant
                        0 <= i <= arguments@.len(),
                        r@.len() == 0,
                    decreases arguments@.len() - i,
                {
                    match arguments[i].get_completion(word) {
                        Some(x) => r.push(x),
                        None => {},
                    }
                    i = i + 1;
                }
                r
            },
        }
    }
}

impl<'b, 'a, B> CommandTreeEither<'b, 'a, B> {
    /// What completing `word` after this node comes to.
    pub fn add_completions_after(&self, word: &str) -> (r: CompletionPlan)
        ensures
            plan_view(r) == spec_completions_after(*self, word@),
    {
        match self {
            CommandTreeEither::Member(m) => {
                let c = m.add_completions_after(word);
                proof {
                    if c@.len() == 0 {
                        assert(string_views(c@) =~= Seq::<Seq<char>>::empty());
                    }
                }
                CompletionPlan::Candidates(c)
            },
            CommandTreeEither::Argument(a) => if a.get_argument_type() == ArgumentType::ChannelName {
                CompletionPlan::ChannelNames
            } else {
                let r: Vec<String> = Vec::new();
                assert(string_views(r@) =~= Seq::<Seq<char>>::empty());
                CompletionPlan::Candidates(r)
            },
        }
    }
}

impl<'a, B> CommandTree<'a, B> {
    /// What completing `word` comes to, where `before` is the line before
    /// the word.
    pub fn complete(&self, before: &str, word: &str) -> (r: CompletionPlan)
        ensures
            plan_view(r) == spec_complete(self.0@, before@, word@),
    {
        let (first, rest) = split_first_word(before);
        if first.unicode_len() == 0 {
            return CompletionPlan::Candidates(member_completions_of(&self.0, word));
        }
        match self.traverse_to(first, rest) {
            None => CompletionPlan::Nothing,
            Some(node) => node.add_completions_after(word),
        }
    }
}

} // verus!
