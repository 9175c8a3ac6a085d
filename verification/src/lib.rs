//! A local, single-user credential store whose entries are kept in one
//! password-protected file.
//!
//! The crate holds the parts that decide whether the store is safe: secrets
//! kept obfuscated in memory ([`secstr`]), password-based key derivation
//! ([`kdf`]), authenticated encryption ([`nacl`]), the on-disk layout and
//! the in-memory list of entries ([`db`]), the rules for what a user types
//! ([`policy`]) and the commands of the command line ([`commands`]).
//!
//! Nothing here reads a terminal or touches a file: a caller hands in the
//! bytes of a file and gets bytes to write back.

pub mod random;
pub mod bytes;
pub mod nacl;
pub mod kdf;
pub mod secstr;
pub mod db;
pub mod policy;
pub mod commands;
