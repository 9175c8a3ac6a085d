//! The database: its entries, its bytes on disk, and what opening and saving
//! it means.

pub mod database;
pub mod entry;
pub mod json;

pub use database::{Database, DatabaseInFile, DbError};
pub use entry::{Entry, EntryError};
