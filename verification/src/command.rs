//! The command grammar: which message texts are commands, and which.
//!
//! Four commands are matched as whole messages. The weather command is
//! `!clima`, alone or followed by a blank and anything; the first word
//! after it names the city.

use crate::text::{
    all_spaces, begins_with, chars_of, find_word, first_word, lemma_first_word_empty,
    lemma_leading_word_clean, no_spaces, same_chars, trim_start,
};
use vstd::prelude::*;
use vstd::string::StrSliceExecFns;
use vstd::string::StringExecFns;

verus! {

/// A recognised command.
#[derive(Debug, Clone, PartialEq, Eq)]
pub enum Command {
    Ping,
    Prueba,
    Hello,
    Help,
    /// Weather for `city`.
    Clima { city: String },
}

pub enum CommandView {
    Ping,
    Prueba,
    Hello,
    Help,
    Clima { city: Seq<char> },
}

impl View for Command {
    type V = CommandView;

    open spec fn view(&self) -> CommandView {
        match self {
            Command::Ping => CommandView::Ping,
            Command::Prueba => CommandView::Prueba,
            Command::Hello => CommandView::Hello,
            Command::Help => CommandView::Help,
            Command::Clima { city } => CommandView::Clima { city: city@ },
        }
    }
}

/// The view of an optional command.
pub open spec fn opt_command(o: Option<Command>) -> Option<CommandView> {
    match o {
        Some(c) => Some(c@),
        None => None,
    }
}

/// Whether `content` is the weather command: the bare word, or the word,
/// a blank, and anything.
pub open spec fn is_clima(content: Seq<char>) -> bool {
    content == "!clima"@ || "!clima "@.is_prefix_of(content)
}

/// What follows the command word in a weather command.
pub open spec fn clima_argument(content: Seq<char>) -> Seq<char> {
    content.skip("!clima"@.len() as int)
}

/// The city a weather command asks for: the first word after the command
/// word, or Madrid when there is none.
pub open spec fn city_of(content: Seq<char>) -> Seq<char> {
    let word = first_word(clima_argument(content));
    if word.len() == 0 {
        "Madrid"@
    } else {
        word
    }
}

/// Whether `content` is one of the five command forms.
pub open spec fn is_command(content: Seq<char>) -> bool {
    ||| content == "!ping"@
    ||| content == "!prueba"@
    ||| content == "!hello"@
    ||| content == "!help"@
    ||| is_clima(content)
}

/// The command that `content` is, if it is one. Matching is exact and
/// case-sensitive.
pub open spec fn command_of(content: Seq<char>) -> Option<CommandView> {
    if content == "!ping"@ {
        Some(CommandView::Ping)
    } else if content == "!prueba"@ {
        Some(CommandView::Prueba)
    } else if content == "!hello"@ {
        Some(CommandView::Hello)
    } else if content == "!help"@ {
        Some(CommandView::Help)
    } else if is_clima(content) {
        Some(CommandView::Clima { city: city_of(content) })
    } else {
        None
    }
}

/// Reads `content` as a command.
pub fn parse_command(content: &str) -> (r: Option<Command>)
    ensures
        opt_command(r) == command_of(content@),
        r is Some <==> is_command(content@),
{
    let v = chars_of(content);
    if same_chars(&v, &chars_of("!ping")) {
        Some(Command::Ping)
    } else if same_chars(&v, &chars_of("!prueba")) {
        Some(Command::Prueba)
    } else if same_chars(&v, &chars_of("!hello")) {
        Some(Command::Hello)
    } else if same_chars(&v, &chars_of("!help")) {
        Some(Command::Help)
    } else if same_chars(&v, &chars_of("!clima")) || begins_with(&v, &chars_of("!clima ")) {
        proof {
            reveal_strlit("!clima");
            reveal_strlit("!clima ");
        }
        let (a, b) = find_word(&v, 6);
        let city = if a == b {
            String::from_str("Madrid")
        } else {
            String::from_str(content.substring_char(a, b))
        };
        Some(Command::Clima { city })
    } else {
        None
    }
}

/// The five command forms exclude one another: a message is at most one
/// of them, so the order in which they are tried does not matter; and a
/// message that is none of them is no command.
pub proof fn lemma_commands_exclusive(content: Seq<char>)
    ensures
        command_of(content) is None <==> !is_command(content),
        command_of(content) == Some(CommandView::Ping) <==> content == "!ping"@,
        command_of(content) == Some(CommandView::Prueba) <==> content == "!prueba"@,
        command_of(content) == Some(CommandView::Hello) <==> content == "!hello"@,
        command_of(content) == Some(CommandView::Help) <==> content == "!help"@,
        command_of(content) matches Some(CommandView::Clima { .. }) <==> is_clima(content),
{
    reveal_strlit("!ping");
    reveal_strlit("!prueba");
    reveal_strlit("!hello");
    reveal_strlit("!help");
    reveal_strlit("!clima");
    reveal_strlit("!clima ");
    assert("!ping"@[1] != "!help"@[1]);
    assert("!clima"@[1] != "!hello"@[1]);
    if "!clima "@.is_prefix_of(content) {
        assert(content.subrange(0, 7)[1] == "!clima "@[1]);
        assert(content[1] != "!prueba"@[1]);
    }
}

/// A weather command with nothing but white space behind the command word
/// asks for Madrid.
pub proof fn lemma_city_defaults(content: Seq<char>)
    requires
        all_spaces(clima_argument(content)),
    ensures
        city_of(content) == "Madrid"@,
{
    lemma_first_word_empty(clima_argument(content));
}

/// The city of a weather command holds no white space and is never empty.
pub proof fn lemma_city_is_a_word(content: Seq<char>)
    ensures
        city_of(content).len() > 0,
        no_spaces(city_of(content)),
{
    reveal_strlit("Madrid");
    lemma_leading_word_clean(trim_start(clima_argument(content)));
}

} // verus!
