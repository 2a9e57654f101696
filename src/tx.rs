//! Typed transaction and cursor operations. The engine works on raw bytes;
//! these functions turn typed requests into the bytes handed to it and the
//! engine's raw answers into typed results.

use vstd::prelude::*;
use crate::codec::{Decode, DecodeError, Encode};
use crate::error::KVError;
use crate::tables::{Table, TableId, TableType};

verus! {

/// A table whose values under one key form a sorted set.
pub trait DupSort: Table {
    proof fn lemma_is_dup_sort()
        ensures
            Self::spec_id().spec_table_type() == TableType::DupSort,
    ;
}

impl DupSort for crate::tables::PlainStorageState {
    proof fn lemma_is_dup_sort() {
    }
}

/// Maps a failure to start a transaction.
pub fn begin_outcome<X>(raw: Result<X, String>) -> (r: Result<X, KVError>)
    ensures
        match raw {
            Ok(x) => r == Ok::<X, KVError>(x),
            Err(e) => r == Err::<X, KVError>(KVError::InitTransaction(e)),
        },
{
    match raw {
        Ok(x) => Ok(x),
        Err(e) => Err(KVError::InitTransaction(e)),
    }
}

/// The typed result of a point lookup in table `T`, from the engine's
/// answer. A missing entry is `Ok(None)` and is never decoded.
pub fn get_outcome<T: Table>(raw: Result<Option<Vec<u8>>, String>) -> (r: Result<
    Option<T::Value>,
    KVError,
>)
    ensures
        match raw {
            Err(e) => r == Err::<Option<T::Value>, KVError>(KVError::Get(e)),
            Ok(None) => r == Ok::<Option<T::Value>, KVError>(None),
            Ok(Some(b)) => match T::Value::decoded(b@) {
                Some(v) => r == Ok::<Option<T::Value>, KVError>(Some(v)),
                None => r == Err::<Option<T::Value>, KVError>(KVError::Decode(DecodeError)),
            },
        },
{
    match raw {
        Err(e) => Err(KVError::Get(e)),
        Ok(None) => Ok(None),
        Ok(Some(b)) => match T::Value::decode(b.as_slice()) {
            Ok(v) => Ok(Some(v)),
            Err(d) => Err(KVError::Decode(d)),
        },
    }
}

/// The typed entry a cursor of table `T` stands on, from the engine's
/// answer to a positioning call. `Ok(None)` when no entry satisfies it.
pub fn entry_outcome<T: Table>(raw: Result<Option<(Vec<u8>, Vec<u8>)>, String>) -> (r: Result<
    Option<(T::Key, T::Value)>,
    KVError,
>)
    ensures
        match raw {
            Err(e) => r == Err::<Option<(T::Key, T::Value)>, KVError>(KVError::Cursor(e)),
            Ok(None) => r == Ok::<Option<(T::Key, T::Value)>, KVError>(None),
            Ok(Some((k, v))) => match (T::Key::decoded(k@), T::Value::decoded(v@)) {
                (Some(dk), Some(dv)) => r == Ok::<Option<(T::Key, T::Value)>, KVError>(
                    Some((dk, dv)),
                ),
                _ => r == Err::<Option<(T::Key, T::Value)>, KVError>(
                    KVError::Decode(DecodeError),
                ),
            },
        },
{
    match raw {
        Err(e) => Err(KVError::Cursor(e)),
        Ok(None) => Ok(None),
        Ok(Some((k, v))) => {
            let dk = T::Key::decode(k.as_slice());
            let dv = T::Value::decode(v.as_slice());
            match (dk, dv) {
                (Ok(dk), Ok(dv)) => Ok(Some((dk, dv))),
                _ => Err(KVError::Decode(DecodeError)),
            }
        },
    }
}

/// Maps a failure to open a cursor.
pub fn cursor_outcome<X>(raw: Result<X, String>) -> (r: Result<X, KVError>)
    ensures
        match raw {
            Ok(x) => r == Ok::<X, KVError>(x),
            Err(e) => r == Err::<X, KVError>(KVError::Cursor(e)),
        },
{
    match raw {
        Ok(x) => Ok(x),
        Err(e) => Err(KVError::Cursor(e)),
    }
}

/// The key and value bytes that a write of `value` under `key` stores.
pub fn put_request<T: Table>(key: &T::Key, value: &T::Value) -> (r: (Vec<u8>, Vec<u8>))
    ensures
        r.0@ == key.encoded(),
        r.1@ == value.encoded(),
{
    (key.encode(), value.encode())
}

/// Maps the engine's answer to a write.
pub fn put_outcome(raw: Result<(), String>) -> (r: Result<(), KVError>)
    ensures
        match raw {
            Ok(_) => r == Ok::<(), KVError>(()),
            Err(e) => r == Err::<(), KVError>(KVError::Put(e)),
        },
{
    match raw {
        Ok(_) => Ok(()),
        Err(e) => Err(KVError::Put(e)),
    }
}

/// The key bytes, and the value bytes if any, that a deletion hands the
/// engine. A value narrows the deletion to one duplicate, so it is passed
/// on only for a sorted-duplicate table; elsewhere every value of the key
/// goes.
pub fn delete_request<T: Table>(key: &T::Key, value: Option<&T::Value>) -> (r: (
    Vec<u8>,
    Option<Vec<u8>>,
))
    ensures
        r.0@ == key.encoded(),
        match value {
            Some(v) => if T::spec_id().spec_table_type() == TableType::DupSort {
                r.1 matches Some(b) && b@ == v.encoded()
            } else {
                r.1 is None
            },
            None => r.1 is None,
        },
{
    let k = key.encode();
    let id: TableId = T::id();
    match value {
        Some(v) => match id.table_type() {
            TableType::DupSort => (k, Some(v.encode())),
            TableType::Table => (k, None),
        },
        None => (k, None),
    }
}

/// Maps the engine's answer to a deletion: whether an entry was there.
pub fn delete_outcome(raw: Result<bool, String>) -> (r: Result<bool, KVError>)
    ensures
        match raw {
            Ok(found) => r == Ok::<bool, KVError>(found),
            Err(e) => r == Err::<bool, KVError>(KVError::Delete(e)),
        },
{
    match raw {
        Ok(found) => Ok(found),
        Err(e) => Err(KVError::Delete(e)),
    }
}

/// Maps the engine's answer to a commit.
pub fn commit_outcome(raw: Result<bool, String>) -> (r: Result<(), KVError>)
    ensures
        match raw {
            Ok(_) => r == Ok::<(), KVError>(()),
            Err(e) => r == Err::<(), KVError>(KVError::Commit(e)),
        },
{
    match raw {
        Ok(_) => Ok(()),
        Err(e) => Err(KVError::Commit(e)),
    }
}

/// The result of a scoped read or write: the operation's own result once
/// the commit went through, whatever that result says, or the commit's
/// failure.
pub fn scoped_outcome<R>(result: R, commit: Result<bool, String>) -> (r: Result<R, KVError>)
    ensures
        match commit {
            Ok(_) => r == Ok::<R, KVError>(result),
            Err(e) => r == Err::<R, KVError>(KVError::Commit(e)),
        },
{
    match commit {
        Ok(_) => Ok(result),
        Err(e) => Err(KVError::Commit(e)),
    }
}

} // verus!
