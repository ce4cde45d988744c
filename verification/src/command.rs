//! Bot commands: `/name[@bot] [argument]`.
use vstd::prelude::*;
use crate::text::{
    chars_of, lemma_split_once_absent, lemma_split_once_join, opt_string_view, opt_view, split_once,
    split_once_str,
};
use vstd::string::StringExecFns;

verus! {

/// A command sent to the bot, such as `/upload@my_bot https://example.com/a.zip`.
#[derive(Debug)]
pub struct Command {
    /// The command's name, without the leading `/`.
    pub name: String,
    /// Everything after the first space, when there is a space.
    pub arg: Option<String>,
    /// The bot the command is addressed to (after `@`), when it names one.
    pub via: Option<String>,
}

/// What a command holds, as sequences of characters.
pub struct CommandView {
    pub name: Seq<char>,
    pub arg: Option<Seq<char>>,
    pub via: Option<Seq<char>>,
}

impl View for Command {
    type V = CommandView;

    open spec fn view(&self) -> CommandView {
        CommandView { name: self.name@, arg: opt_string_view(self.arg), via: opt_string_view(self.via) }
    }
}

/// The command that a message text holds: the text starts with `/`; the part up to the
/// first space is the command, the rest (if there is a space) its argument; within the
/// command, the part up to the first `@` is the name and the rest the addressed bot.
pub open spec fn spec_parse_command(text: Seq<char>) -> Option<CommandView> {
    if text.len() > 0 && text[0] == '/' {
        let (command_part, arg) = split_once(text.skip(1), ' ');
        let (name, via) = split_once(command_part, '@');
        Some(CommandView { name, arg, via })
    } else {
        None
    }
}

fn owned(s: &str) -> (r: String)
    ensures
        r@ == s@,
{
    String::from_str(s)
}

fn owned_opt(s: Option<&str>) -> (r: Option<String>)
    ensures
        opt_string_view(r) == opt_view(s),
{
    match s {
        Some(t) => Some(owned(t)),
        None => None,
    }
}

/// Parses a message text as a command; `None` when the text does not start with `/`.
pub fn parse_command(text: &str) -> (r: Option<Command>)
    ensures
        match r {
            Some(c) => spec_parse_command(text@) == Some(c@),
            None => spec_parse_command(text@) is None,
        },
{
    let chars = chars_of(text);
    if chars.len() == 0 || chars[0] != '/' {
        return None;
    }
    let text_without_prefix = text.substring_char(1, chars.len());
    let (command_part, arg) = split_command_and_arg(text_without_prefix);
    let (name, via) = match split_command_and_bot_mention(command_part) {
        Some(parts) => parts,
        None => return None,
    };
    Some(Command { name: owned(name), via: owned_opt(via), arg: owned_opt(arg) })
}

/// Splits a command at its first space: the command, and the argument after the space.
pub fn split_command_and_arg(text: &str) -> (r: (&str, Option<&str>))
    ensures
        (r.0@, opt_view(r.1)) == split_once(text@, ' '),
{
    split_once_str(text, ' ')
}

/// Splits a command at its first `@`: the name, and the addressed bot after the `@`.
/// The split always succeeds.
pub fn split_command_and_bot_mention(text: &str) -> (r: Option<(&str, Option<&str>)>)
    ensures
        r matches Some(parts) && (parts.0@, opt_view(parts.1)) == split_once(text@, '@'),
{
    Some(split_once_str(text, '@'))
}

/// The text of a command: `/`, the name, `@` and the bot when one is named, a space and
/// the argument when there is one.
pub open spec fn command_text(
    name: Seq<char>,
    via: Option<Seq<char>>,
    arg: Option<Seq<char>>,
) -> Seq<char> {
    let with_via = match via {
        Some(v) => name + seq!['@'] + v,
        None => name,
    };
    let with_arg = match arg {
        Some(a) => with_via + seq![' '] + a,
        None => with_via,
    };
    seq!['/'] + with_arg
}

/// Parsing gives back what a command text was made of, when the name holds neither a
/// space nor `@` and the bot name holds no space. The argument may hold anything.
pub proof fn lemma_parse_command_text(
    name: Seq<char>,
    via: Option<Seq<char>>,
    arg: Option<Seq<char>>,
)
    requires
        !name.contains(' '),
        !name.contains('@'),
        (via matches Some(v) ==> !v.contains(' ')),
    ensures
        spec_parse_command(command_text(name, via, arg)) == Some(CommandView { name, arg, via }),
{
    let with_via = match via {
        Some(v) => name + seq!['@'] + v,
        None => name,
    };
    let text = command_text(name, via, arg);
    assert(!with_via.contains(' ')) by {
        if with_via.contains(' ') {
            let j = choose|j: int| 0 <= j < with_via.len() && with_via[j] == ' ';
            match via {
                Some(v) => {
                    if j < name.len() {
                        assert(name[j] == ' ');
                    } else if j > name.len() {
                        assert(v[j - name.len() - 1] == ' ');
                    }
                },
                None => {
                    assert(name[j] == ' ');
                },
            }
        }
    }
    match arg {
        Some(a) => {
            assert(text.skip(1) =~= with_via + seq![' '] + a);
            lemma_split_once_join(with_via, ' ', a);
        },
        None => {
            assert(text.skip(1) =~= with_via);
            lemma_split_once_absent(with_via, ' ');
        },
    }
    match via {
        Some(v) => lemma_split_once_join(name, '@', v),
        None => lemma_split_once_absent(name, '@'),
    }
}

} // verus!
