//! Undo and redo history-rewriting operations on a version-control branch.
//!
//! The library parses the branch's history log into operation records,
//! keeps an append-only ledger of the actions already performed, selects
//! the next operation to undo or redo, and checks the repository state
//! preconditions that gate a run. All file and subprocess work is left to
//! the surrounding application, which hands the library plain values.

pub mod codec;
pub mod engine;
pub mod error;
pub mod guard;
pub mod parse;
pub mod records;
