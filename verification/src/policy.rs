//! What a user may type where a password or an entry is asked for.
//!
//! Reading the terminal and printing are left to the caller; whether what
//! was read can be accepted is decided here.

use crate::bytes::str_eq;
use vstd::prelude::*;
use vstd::utf8::encode_utf8;

verus! {

/// What a user typed that cannot be accepted.
#[derive(Debug, Clone, Copy, PartialEq, Eq)]
pub enum UserInputError {
    /// An entry needs a title.
    EmptyTitle,
    /// An entry needs a user name.
    EmptyUsername,
    /// No password was typed.
    EmptyPassword,
    /// The master password has fewer bytes than the policy asks for.
    PasswordTooShort,
    /// The master password and its confirmation differ.
    PasswordMismatch,
}

/// What is wrong with a new master password and its confirmation, if
/// anything. The length is looked at first.
pub open spec fn spec_master_password_fault(
    password: Seq<char>,
    confirmation: Seq<char>,
    min_length: usize,
) -> Option<UserInputError> {
    if encode_utf8(password).len() == 0 {
        Some(UserInputError::EmptyPassword)
    } else if encode_utf8(password).len() < min_length {
        Some(UserInputError::PasswordTooShort)
    } else if password != confirmation {
        Some(UserInputError::PasswordMismatch)
    } else {
        None
    }
}

/// What is missing from the fields of a new entry, if anything: the first
/// of title, user name and password that is empty.
pub open spec fn spec_entry_fault(title: Seq<char>, username: Seq<char>, password: Seq<char>)
    -> Option<UserInputError> {
    if title.len() == 0 {
        Some(UserInputError::EmptyTitle)
    } else if username.len() == 0 {
        Some(UserInputError::EmptyUsername)
    } else if password.len() == 0 {
        Some(UserInputError::EmptyPassword)
    } else {
        None
    }
}

/// Checks a new master password against the policy and its confirmation.
pub fn check_master_password(password: &str, confirmation: &str, min_length: usize) -> (res:
    Result<(), UserInputError>)
    ensures
        match res {
            Ok(_) => spec_master_password_fault(password@, confirmation@, min_length) is None,
            Err(e) => spec_master_password_fault(password@, confirmation@, min_length) == Some(e),
        },
{
    let length: usize = password.as_bytes().len();
    if length == 0 {
        Err(UserInputError::EmptyPassword)
    } else if length < min_length {
        Err(UserInputError::PasswordTooShort)
    } else if !str_eq(password, confirmation) {
        Err(UserInputError::PasswordMismatch)
    } else {
        Ok(())
    }
}

/// Checks that nothing is missing from the fields of a new entry.
pub fn check_entry_input(title: &str, username: &str, password: &str) -> (res: Result<
    (),
    UserInputError,
>)
    ensures
        match res {
            Ok(_) => spec_entry_fault(title@, username@, password@) is None,
            Err(e) => spec_entry_fault(title@, username@, password@) == Some(e),
        },
{
    if title.is_empty() {
        Err(UserInputError::EmptyTitle)
    } else if username.is_empty() {
        Err(UserInputError::EmptyUsername)
    } else if password.is_empty() {
        Err(UserInputError::EmptyPassword)
    } else {
        Ok(())
    }
}

} // verus!
