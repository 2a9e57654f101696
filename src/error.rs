//! Errors of the typed layer.

use vstd::prelude::*;
use crate::codec::DecodeError;

verus! {

/// What went wrong. Engine failures carry the engine's description of the
/// failure; a decode failure means stored bytes do not fit the table's type.
#[derive(Debug, PartialEq, Eq)]
pub enum KVError {
    /// The storage location could not be opened.
    DatabaseLocation(String),
    /// The engine could not start a transaction.
    InitTransaction(String),
    /// A table could not be created.
    TableCreation(String),
    /// The engine rejected a commit.
    Commit(String),
    /// A read failed in the engine.
    Get(String),
    /// A write failed in the engine.
    Put(String),
    /// A deletion failed in the engine.
    Delete(String),
    /// A cursor could not be opened or moved.
    Cursor(String),
    /// Stored bytes are not an encoding of the table's type.
    Decode(DecodeError),
}

} // verus!
