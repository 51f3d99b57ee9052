//! Decisions of the terminal front end that do not depend on its panes.

use vstd::prelude::*;
use crate::text::{chars_of, prefixed_str, starts_with, str_eq, string_from_chars};

verus! {

/// What a line typed after `:` asks the application to do.
#[derive(Debug, Clone, PartialEq, Eq)]
pub enum CommandLineAction {
    /// `:w` — save the focused document.
    Write,
    /// `:q` — quit.
    Quit,
    /// `:wq` — save the focused document, then quit.
    WriteQuit,
    /// `:beans` — ask the language server for the Spring beans.
    Beans,
    /// `:endpoints` — ask the language server for the Spring endpoints.
    Endpoints,
    /// `:gradle <task>` — run a Gradle task.
    Gradle(String),
    /// Anything else.
    Unknown(String),
}

/// The prefix of a Gradle command line, space included.
pub open spec fn gradle_prefix() -> Seq<char> {
    seq!['g', 'r', 'a', 'd', 'l', 'e', ' ']
}

/// The action named by the command line `cmd`.
pub open spec fn command_line_spec(cmd: Seq<char>) -> CommandLineActionView {
    if cmd == seq!['w'] {
        CommandLineActionView::Write
    } else if cmd == seq!['q'] {
        CommandLineActionView::Quit
    } else if cmd == seq!['w', 'q'] {
        CommandLineActionView::WriteQuit
    } else if cmd == seq!['b', 'e', 'a', 'n', 's'] {
        CommandLineActionView::Beans
    } else if cmd == seq!['e', 'n', 'd', 'p', 'o', 'i', 'n', 't', 's'] {
        CommandLineActionView::Endpoints
    } else if starts_with(cmd, gradle_prefix()) {
        CommandLineActionView::Gradle(cmd.skip(7))
    } else {
        CommandLineActionView::Unknown(cmd)
    }
}

/// A `CommandLineAction` with its strings taken as char sequences.
pub enum CommandLineActionView {
    Write,
    Quit,
    WriteQuit,
    Beans,
    Endpoints,
    Gradle(Seq<char>),
    Unknown(Seq<char>),
}

impl View for CommandLineAction {
    type V = CommandLineActionView;

    open spec fn view(&self) -> CommandLineActionView {
        match self {
            CommandLineAction::Write => CommandLineActionView::Write,
            CommandLineAction::Quit => CommandLineActionView::Quit,
            CommandLineAction::WriteQuit => CommandLineActionView::WriteQuit,
            CommandLineAction::Beans => CommandLineActionView::Beans,
            CommandLineAction::Endpoints => CommandLineActionView::Endpoints,
            CommandLineAction::Gradle(t) => CommandLineActionView::Gradle(t@),
            CommandLineAction::Unknown(c) => CommandLineActionView::Unknown(c@),
        }
    }
}

/// Reads a command line (the text typed after `:`, without the colon).
pub fn command_line_action(cmd: &str) -> (r: CommandLineAction)
    ensures
        r@ == command_line_spec(cmd@),
{
    proof {
        reveal_strlit("w");
        reveal_strlit("q");
        reveal_strlit("wq");
        reveal_strlit("beans");
        reveal_strlit("endpoints");
    }
    assert("w"@ =~= seq!['w']);
    assert("q"@ =~= seq!['q']);
    assert("wq"@ =~= seq!['w', 'q']);
    assert("beans"@ =~= seq!['b', 'e', 'a', 'n', 's']);
    assert("endpoints"@ =~= seq!['e', 'n', 'd', 'p', 'o', 'i', 'n', 't', 's']);
    if str_eq(cmd, "w") {
        return CommandLineAction::Write;
    }
    if str_eq(cmd, "q") {
        return CommandLineAction::Quit;
    }
    if str_eq(cmd, "wq") {
        return CommandLineAction::WriteQuit;
    }
    if str_eq(cmd, "beans") {
        return CommandLineAction::Beans;
    }
    if str_eq(cmd, "endpoints") {
        return CommandLineAction::Endpoints;
    }
    let chars = chars_of(cmd);
    proof { reveal_strlit("gradle "); }
    assert("gradle "@ =~= gradle_prefix());
    if prefixed_str(&chars, "gradle ") {
        let mut task: Vec<char> = Vec::new();
        let mut i: usize = 7;
        while i < chars.len()
            invariant
                7 <= i <= chars@.len(),
                task@ =~= chars@.subrange(7, i as int),
            decreases chars@.len() - i,
        {
            task.push(chars[i]);
            i = i + 1;
        }
        let t = string_from_chars(&task);
        return CommandLineAction::Gradle(t);
    }
    CommandLineAction::Unknown(string_from_chars(&chars))
}

} // verus!
