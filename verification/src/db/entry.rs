//! One record of the store.

use crate::bytes::{nul_chars, trim, trimmed};
use crate::nacl::stream::{KEY_BYTES, NONCE_BYTES};
use crate::policy::{check_entry_input, spec_entry_fault, UserInputError};
use crate::random::os_random_bytes;
use crate::secstr::SecStr;
use vstd::prelude::*;
use vstd::utf8::encode_utf8;

verus! {

/// What an entry says, as plain text: title, user name, password and URL.
pub type EntryText = (Seq<char>, Seq<char>, Seq<char>, Option<Seq<char>>);

/// An entry as it is written down: title, user name, password and URL.
pub type Row = (String, String, String, Option<String>);

/// What a row says.
pub open spec fn row_text(row: Row) -> EntryText {
    (
        row.0@,
        row.1@,
        row.2@,
        match row.3 {
            Some(url) => Some(url@),
            None => None,
        },
    )
}

/// What a list of rows says, row by row.
pub open spec fn rows_text(rows: Seq<Row>) -> Seq<EntryText> {
    Seq::new(rows.len(), |i: int| row_text(rows[i]))
}

/// What an entry says that is made of what a user typed: each field without
/// the white space around it, and no URL where nothing else was typed for it.
pub open spec fn spec_input_text(
    title: Seq<char>,
    username: Seq<char>,
    password: Seq<char>,
    url: Seq<char>,
) -> EntryText {
    (
        trimmed(title),
        trimmed(username),
        trimmed(password),
        if trimmed(url).len() == 0 {
            None
        } else {
            Some(trimmed(url))
        },
    )
}

/// Why an entry was not made.
#[derive(Debug, Clone, Copy, PartialEq, Eq)]
pub enum EntryError {
    /// Title, user name or password is missing.
    Incomplete(UserInputError),
    /// The operating system gave no random bytes to protect the password
    /// with.
    RandomSource,
}

/// One credential: where it belongs, who logs in, and the password.
///
/// The title is the name under which an entry is found again. It is compared
/// exactly, letter case included.
pub struct Entry {
    pub title: String,
    pub username: String,
    pub password: SecStr,
    pub url: Option<String>,
}

impl Entry {
    /// The password of this entry can be read.
    pub open spec fn intact(&self) -> bool {
        self.password.intact()
    }

    /// What this entry says.
    pub open spec fn text(&self) -> EntryText {
        (
            self.title@,
            self.username@,
            self.password.text(),
            match self.url {
                Some(url) => Some(url@),
                None => None,
            },
        )
    }

    /// Makes an entry without a URL.
    ///
    /// An entry is made whole or not at all: title, user name and password
    /// must not be empty. The password goes into a `SecStr` at once.
    pub fn new(title: &str, username: &str, password: &str) -> (res: Result<Entry, EntryError>)
        ensures
            match res {
                Ok(entry) => {
                    &&& spec_entry_fault(title@, username@, password@) is None
                    &&& entry.intact()
                    &&& entry.text() == (title@, username@, password@, None::<Seq<char>>)
                    &&& entry.password.string@ == nul_chars(encode_utf8(password@).len())
                    &&& entry.password.locked()
                },
                Err(EntryError::Incomplete(fault)) => spec_entry_fault(
                    title@,
                    username@,
                    password@,
                ) == Some(fault),
                Err(EntryError::RandomSource) => spec_entry_fault(title@, username@, password@)
                    is None,
            },
    {
        match check_entry_input(title, username, password) {
            Ok(_) => {
                let row: Row = (title.to_owned(), username.to_owned(), password.to_owned(), None);
                match Entry::from_row(row) {
                    Some(entry) => Ok(entry),
                    None => Err(EntryError::RandomSource),
                }
            },
            Err(fault) => Err(EntryError::Incomplete(fault)),
        }
    }

    /// Makes an entry with a URL. Title, user name and password must not be
    /// empty; the URL may be.
    pub fn with_url(title: &str, username: &str, password: &str, url: &str) -> (res: Result<
        Entry,
        EntryError,
    >)
        ensures
            match res {
                Ok(entry) => {
                    &&& spec_entry_fault(title@, username@, password@) is None
                    &&& entry.intact()
                    &&& entry.text() == (title@, username@, password@, Some(url@))
                    &&& entry.password.string@ == nul_chars(encode_utf8(password@).len())
                    &&& entry.password.locked()
                },
                Err(EntryError::Incomplete(fault)) => spec_entry_fault(
                    title@,
                    username@,
                    password@,
                ) == Some(fault),
                Err(EntryError::RandomSource) => spec_entry_fault(title@, username@, password@)
                    is None,
            },
    {
        match check_entry_input(title, username, password) {
            Ok(_) => {
                let row: Row = (
                    title.to_owned(),
                    username.to_owned(),
                    password.to_owned(),
                    Some(url.to_owned()),
                );
                match Entry::from_row(row) {
                    Some(entry) => Ok(entry),
                    None => Err(EntryError::RandomSource),
                }
            },
            Err(fault) => Err(EntryError::Incomplete(fault)),
        }
    }

    /// Makes an entry of what a user typed, line ends and all.
    ///
    /// The white space around each field is taken off first. What is left of
    /// title, user name and password must not be empty; where nothing is
    /// left of the URL, the entry has none.
    pub fn from_input(title: &str, username: &str, password: &str, url: &str) -> (res: Result<
        Entry,
        EntryError,
    >)
        ensures
            match res {
                Ok(entry) => {
                    &&& spec_entry_fault(trimmed(title@), trimmed(username@), trimmed(password@))
                        is None
                    &&& entry.intact()
                    &&& entry.text() == spec_input_text(title@, username@, password@, url@)
                    &&& entry.password.string@ == nul_chars(
                        encode_utf8(trimmed(password@)).len(),
                    )
                    &&& entry.password.locked()
                },
                Err(EntryError::Incomplete(fault)) => spec_entry_fault(
                    trimmed(title@),
                    trimmed(username@),
                    trimmed(password@),
                ) == Some(fault),
                Err(EntryError::RandomSource) => spec_entry_fault(
                    trimmed(title@),
                    trimmed(username@),
                    trimmed(password@),
                ) is None,
            },
    {
        let title = trim(title);
        let username = trim(username);
        let password = trim(password);
        let url = trim(url);
        if url.is_empty() {
            Entry::new(title, username, password)
        } else {
            Entry::with_url(title, username, password, url)
        }
    }

    /// Makes the entry that a row describes. A row is taken as it is: it
    /// comes from a database that was saved before. `None` means that the
    /// operating system gave no random bytes to protect the password with.
    pub fn from_row(row: Row) -> (res: Option<Entry>)
        ensures
            res matches Some(entry) ==> {
                &&& entry.intact()
                &&& entry.text() == row_text(row)
                &&& entry.password.string@ == nul_chars(encode_utf8(row.2@).len())
                &&& entry.password.locked()
            },
    {
        Entry::from_row_and_draws(row, os_random_bytes(KEY_BYTES), os_random_bytes(NONCE_BYTES))
    }

    /// Makes the entry that a row describes, with its password protected
    /// under a key and a nonce as the random source handed them out.
    ///
    /// There is an entry if and only if both were handed out and have the
    /// lengths that the cipher asks for.
    pub fn from_row_and_draws(row: Row, key: Option<Vec<u8>>, nonce: Option<Vec<u8>>) -> (res:
        Option<Entry>)
        ensures
            res is Some <==> SecStr::usable_draws(key, nonce),
            res matches Some(entry) ==> {
                &&& entry.intact()
                &&& entry.text() == row_text(row)
                &&& entry.password.string@ == nul_chars(encode_utf8(row.2@).len())
                &&& entry.password.locked()
                &&& entry.password.password@ == key->0@
                &&& entry.password.iv@ == nonce->0@
            },
    {
        let (title, username, password, url) = row;
        match SecStr::from_draws(password, key, nonce) {
            Some(password) => Some(Entry { title, username, password, url }),
            None => None,
        }
    }

    /// Writes this entry down as a row. The row holds the password in plain
    /// text: overwrite it once it has served.
    ///
    /// An entry whose password cannot be read has no row.
    pub fn to_row(&self) -> (res: Option<Row>)
        ensures
            res is Some <==> self.intact(),
            res matches Some(row) ==> row_text(row) == self.text(),
    {
        match self.password.try_export() {
            Some(password) => {
                let url: Option<String> = match &self.url {
                    Some(url) => Some(url.clone()),
                    None => None,
                };
                Some((self.title.clone(), self.username.clone(), password, url))
            },
            None => None,
        }
    }
}

} // verus!
