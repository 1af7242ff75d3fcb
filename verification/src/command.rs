//! The command router: what a message's text asks for.

use crate::text::{after_prefix, has_prefix, same_text, strip_prefix};
use vstd::prelude::*;
use vstd::string::*;

verus! {

/// What a message asks for.
#[derive(Debug)]
pub enum Command {
    /// `!grephelp`: the help text.
    Help,
    /// `!mygreps`: the sender's own patterns.
    ListMine,
    /// `!grep <pattern>`: watch for the pattern.
    Add(String),
    /// `!ungrep <pattern>`: stop watching for the pattern.
    Remove(String),
    /// Anything else: a message to hold against the rules.
    Plain,
}

/// A command as the contracts see it.
pub enum CommandView {
    Help,
    ListMine,
    Add(Seq<char>),
    Remove(Seq<char>),
    Plain,
}

impl View for Command {
    type V = CommandView;

    open spec fn view(&self) -> CommandView {
        match self {
            Command::Help => CommandView::Help,
            Command::ListMine => CommandView::ListMine,
            Command::Add(pattern) => CommandView::Add(pattern@),
            Command::Remove(pattern) => CommandView::Remove(pattern@),
            Command::Plain => CommandView::Plain,
        }
    }
}

/// The command that `text` stands for. The two fixed commands are the whole
/// text; the other two are a fixed prefix, and what follows it is the pattern.
pub open spec fn classify(text: Seq<char>) -> CommandView {
    if text == "!grephelp"@ {
        CommandView::Help
    } else if text == "!mygreps"@ {
        CommandView::ListMine
    } else if has_prefix(text, "!grep "@) {
        CommandView::Add(after_prefix(text, "!grep "@.len()))
    } else if has_prefix(text, "!ungrep "@) {
        CommandView::Remove(after_prefix(text, "!ungrep "@.len()))
    } else {
        CommandView::Plain
    }
}

impl Command {
    /// Reads the command out of a message's text.
    pub fn parse(text: &str) -> (c: Command)
        ensures
            c@ == classify(text@),
    {
        if same_text(text, "!grephelp") {
            return Command::Help;
        }
        if same_text(text, "!mygreps") {
            return Command::ListMine;
        }
        if let Some(pattern) = strip_prefix(text, "!grep ") {
            return Command::Add(String::from_str(pattern));
        }
        if let Some(pattern) = strip_prefix(text, "!ungrep ") {
            return Command::Remove(String::from_str(pattern));
        }
        Command::Plain
    }
}

} // verus!
