//! The commands of the command line: which there are, and what each needs.
//!
//! Reading the terminal and printing are left to the caller; which command a
//! word stands for is decided here.

use crate::bytes::str_eq;
use vstd::prelude::*;

verus! {

/// The commands, all of them.
#[derive(Debug, Clone, Copy, PartialEq, Eq)]
pub enum Command {
    /// Make a new database in a file that does not exist yet.
    Create,
    /// Open the database in a file.
    Open,
    /// List all entries.
    List,
    /// Add a new entry.
    New,
    /// Show an entry in full.
    Show,
    /// Copy the password of an entry to the clipboard.
    Copy,
    /// Change an entry.
    Edit,
    /// Remove an entry.
    Remove,
}

/// The command that a word names, if it names one. Letter case counts.
pub open spec fn spec_command(word: Seq<char>) -> Option<Command> {
    if word == "create"@ {
        Some(Command::Create)
    } else if word == "open"@ {
        Some(Command::Open)
    } else if word == "list"@ {
        Some(Command::List)
    } else if word == "new"@ {
        Some(Command::New)
    } else if word == "show"@ {
        Some(Command::Show)
    } else if word == "copy"@ {
        Some(Command::Copy)
    } else if word == "edit"@ {
        Some(Command::Edit)
    } else if word == "remove"@ {
        Some(Command::Remove)
    } else {
        None
    }
}

impl Command {
    /// Finds the command that a word names.
    pub fn parse(word: &str) -> (res: Option<Command>)
        ensures
            res == spec_command(word@),
    {
        if str_eq(word, "create") {
            Some(Command::Create)
        } else if str_eq(word, "open") {
            Some(Command::Open)
        } else if str_eq(word, "list") {
            Some(Command::List)
        } else if str_eq(word, "new") {
            Some(Command::New)
        } else if str_eq(word, "show") {
            Some(Command::Show)
        } else if str_eq(word, "copy") {
            Some(Command::Copy)
        } else if str_eq(word, "edit") {
            Some(Command::Edit)
        } else if str_eq(word, "remove") {
            Some(Command::Remove)
        } else {
            None
        }
    }

    /// Whether the command works on an open database. The others, `create`
    /// and `open`, are what gets one.
    pub fn needs_database(&self) -> (needs: bool)
        ensures
            needs == !(*self is Create || *self is Open),
    {
        match self {
            Command::Create => false,
            Command::Open => false,
            _ => true,
        }
    }

    /// Whether the command must be followed by a file name or a title.
    pub fn takes_argument(&self) -> (takes: bool)
        ensures
            takes == !(*self is List || *self is New),
    {
        match self {
            Command::List => false,
            Command::New => false,
            _ => true,
        }
    }
}

} // verus!
