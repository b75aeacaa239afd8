//! Commands of the interactive loop: what a line of user input asks for.
//!
//! A line is a command when it is, letter case aside, one of the literal
//! command words; any other line is a chat message and goes to the model as
//! it stands. There are two loops. The plain one knows `exit` and `/exit`
//! and takes the whole line for the command; the other also knows `bye` and
//! `/attach`, and lets the first word of the line decide.

use crate::text::{
    is_word, lowered, lowered_eq, split_words, string_views, trimmed, word_is_its_own_trim, words,
};
use vstd::prelude::*;
use vstd::std_specs::convert::FromSpecImpl;

verus! {

/// What a line of input asks for.
#[derive(Debug, Clone, PartialEq, Eq)]
pub enum Command {
    /// Send the line to the model.
    Chat { message: String },
    /// Ingest the documents at these paths.
    Attach { paths: Vec<String> },
    /// End the session.
    Exit,
}

pub enum CommandView {
    Chat { message: Seq<char> },
    Attach { paths: Seq<Seq<char>> },
    Exit,
}

impl View for Command {
    type V = CommandView;

    open spec fn view(&self) -> CommandView {
        match self {
            Command::Chat { message } => CommandView::Chat { message: message@ },
            Command::Attach { paths } => CommandView::Attach { paths: string_views(paths@) },
            Command::Exit => CommandView::Exit,
        }
    }
}

/// Which commands a loop knows, and how it reads them.
#[derive(Debug, Clone, Copy, PartialEq, Eq, Structural)]
pub enum Vocabulary {
    /// `exit` and `/exit` only, and only as the whole line. Every other line
    /// is a chat message.
    Plain,
    /// `exit`, `/exit` and `bye`, and `/attach` with its paths. The first
    /// word of the line decides.
    WithBye,
}

/// Whether `text`, letter case aside, is `exit` or `/exit`.
pub open spec fn is_exit(text: Seq<char>) -> bool {
    lowered(text) == "exit"@ || lowered(text) == "/exit"@
}

/// The command that `line` spells where the whole line is the command.
pub open spec fn whole_line_command(line: Seq<char>) -> CommandView {
    if is_exit(line) {
        CommandView::Exit
    } else {
        CommandView::Chat { message: line }
    }
}

/// The command that `line` spells where its first word decides.
pub open spec fn first_word_command(line: Seq<char>) -> CommandView {
    let all = words(line);
    if all.len() == 0 {
        CommandView::Chat { message: line }
    } else if lowered(all[0]) == "/attach"@ {
        CommandView::Attach { paths: all.skip(1) }
    } else if is_exit(all[0]) || lowered(all[0]) == "bye"@ {
        CommandView::Exit
    } else {
        CommandView::Chat { message: line }
    }
}

/// The command that `line` spells under `vocabulary`.
pub open spec fn command_of(line: Seq<char>, vocabulary: Vocabulary) -> CommandView {
    match vocabulary {
        Vocabulary::Plain => whole_line_command(line),
        Vocabulary::WithBye => first_word_command(line),
    }
}

/// Under the plain vocabulary only the whole line counts: a line that is not
/// `exit` or `/exit`, letter case aside, is a chat message that holds the
/// line unchanged, whatever its first word is, and no line attaches.
pub proof fn plain_vocabulary_reads_the_whole_line(line: Seq<char>)
    ensures
        !is_exit(line) ==> command_of(line, Vocabulary::Plain) == (CommandView::Chat {
            message: line,
        }),
        is_exit(line) ==> command_of(line, Vocabulary::Plain) == CommandView::Exit,
        !(command_of(line, Vocabulary::Plain) is Attach),
{
}

/// A line that is the word `exit` or `/exit`, in any letter case, ends the
/// session under either vocabulary.
pub proof fn exit_and_slash_exit_end_the_session(line: Seq<char>, vocabulary: Vocabulary)
    requires
        is_word(line),
        lowered(line) == "exit"@ || lowered(line) == "/exit"@,
    ensures
        command_of(trimmed(line), vocabulary) == CommandView::Exit,
{
    reveal_strlit("exit");
    reveal_strlit("/exit");
    reveal_strlit("/attach");
    word_is_its_own_trim(line);
    assert("exit"@.len() == 4 && "/exit"@.len() == 5 && "/attach"@.len() == 7);
    assert(words(line)[0] == line);
}

/// A line that is the word `bye`, in any letter case, ends the session where
/// the vocabulary declares it, and is a chat message like any other where it
/// does not.
pub proof fn bye_ends_the_session_only_where_declared(line: Seq<char>)
    requires
        is_word(line),
        lowered(line) == "bye"@,
    ensures
        command_of(trimmed(line), Vocabulary::WithBye) == CommandView::Exit,
        command_of(trimmed(line), Vocabulary::Plain) == (CommandView::Chat { message: line }),
{
    reveal_strlit("bye");
    reveal_strlit("exit");
    reveal_strlit("/exit");
    reveal_strlit("/attach");
    word_is_its_own_trim(line);
    assert("bye"@.len() == 3 && "exit"@.len() == 4 && "/exit"@.len() == 5 && "/attach"@.len()
        == 7);
    assert(words(line)[0] == line);
}

impl Command {
    /// Reads a line of input under `vocabulary`.
    ///
    /// Under `Plain` the line is `Exit` exactly when the whole of it is
    /// `exit` or `/exit`, letter case aside. Under `WithBye` the first word
    /// decides: `/attach` takes the rest of the line's words as paths, and
    /// an exit word or `bye` gives `Exit`. Every other line, an empty one
    /// too, is a chat message that holds the line unchanged.
    pub fn parse(line: &str, vocabulary: Vocabulary) -> (c: Command)
        ensures
            c@ == command_of(line@, vocabulary),
    {
        if vocabulary == Vocabulary::Plain {
            return if lowered_eq(line, "exit") || lowered_eq(line, "/exit") {
                Command::Exit
            } else {
                Command::Chat { message: line.to_owned() }
            };
        }
        let mut all = split_words(line);
        if all.len() == 0 {
            return Command::Chat { message: line.to_owned() };
        }
        let first = all[0].as_str();
        assert(first@ == words(line@)[0]);
        if lowered_eq(first, "/attach") {
            let ghost before = all@;
            all.remove(0);
            proof {
                assert(string_views(all@) =~= string_views(before).skip(1));
            }
            Command::Attach { paths: all }
        } else if lowered_eq(first, "exit") || lowered_eq(first, "/exit") || lowered_eq(
            first,
            "bye",
        ) {
            Command::Exit
        } else {
            Command::Chat { message: line.to_owned() }
        }
    }
}

impl From<&str> for Command {
    /// Reads a line of input with `bye` among the exit words.
    fn from(value: &str) -> (c: Command)
        ensures
            c@ == command_of(value@, Vocabulary::WithBye),
    {
        Command::parse(value, Vocabulary::WithBye)
    }
}

impl FromSpecImpl<&str> for Command {
    open spec fn obeys_from_spec() -> bool {
        false
    }

    open spec fn from_spec(v: &str) -> Command {
        arbitrary()
    }
}

} // verus!
