//! Laws of the typed layer over an engine that behaves as an ordered map
//! from key bytes to value bytes (and, for a sorted-duplicate table, keeps
//! each key's values as a set ordered by their bytes).

use vstd::prelude::*;
use crate::codec::{bytes_lt, lemma_bytes_lt_irreflexive, lemma_bytes_lt_transitive, Decode, Encode};
use crate::models::{lemma_storage_entry_order, StorageEntry};
use crate::tables::Table;

verus! {

/// Law: after a committed write of `value` under `key` in table `T`, a read
/// of `key` finds bytes that decode to `value`.
pub proof fn lemma_put_then_get<T: Table>(
    contents: Map<Seq<u8>, Seq<u8>>,
    key: T::Key,
    value: T::Value,
)
    ensures
        ({
            let after = contents.insert(key.encoded(), value.encoded());
            &&& after.contains_key(key.encoded())
            &&& T::Value::decoded(after[key.encoded()]) == Some(value)
        }),
{
    T::Value::lemma_decode_encoded(value);
}

/// Law: after a committed deletion of `key` in table `T`, a read of `key`
/// finds nothing (and so decodes nothing), and other keys keep their
/// values.
pub proof fn lemma_delete_then_get<T: Table>(contents: Map<Seq<u8>, Seq<u8>>, key: T::Key, other: Seq<u8>)
    requires
        other != key.encoded(),
    ensures
        ({
            let after = contents.remove(key.encoded());
            &&& !after.contains_key(key.encoded())
            &&& after.contains_key(other) == contents.contains_key(other)
            &&& contents.contains_key(other) ==> after[other] == contents[other]
        }),
{
}

/// Law: storage entries `v1 < v2 < v3` (by slot key) stored as duplicates
/// of one key are walked in that order: their encodings are strictly
/// ordered, so starting from `v1` the next duplicate is `v2`, then `v3`,
/// then none; and each decodes back to itself.
pub proof fn lemma_dup_sort_walk(v1: StorageEntry, v2: StorageEntry, v3: StorageEntry)
    requires
        bytes_lt(v1.key.0@, v2.key.0@),
        bytes_lt(v2.key.0@, v3.key.0@),
    ensures
        bytes_lt(v1.encoded(), v2.encoded()),
        bytes_lt(v2.encoded(), v3.encoded()),
        bytes_lt(v1.encoded(), v3.encoded()),
        !bytes_lt(v2.encoded(), v1.encoded()),
        !bytes_lt(v3.encoded(), v2.encoded()),
        StorageEntry::decoded(v1.encoded()) == Some(v1),
        StorageEntry::decoded(v2.encoded()) == Some(v2),
        StorageEntry::decoded(v3.encoded()) == Some(v3),
{
    lemma_storage_entry_order(v1, v2);
    lemma_storage_entry_order(v2, v3);
    lemma_bytes_lt_transitive(v1.encoded(), v2.encoded(), v3.encoded());
    if bytes_lt(v2.encoded(), v1.encoded()) {
        lemma_bytes_lt_transitive(v1.encoded(), v2.encoded(), v1.encoded());
        lemma_bytes_lt_irreflexive(v1.encoded());
    }
    if bytes_lt(v3.encoded(), v2.encoded()) {
        lemma_bytes_lt_transitive(v2.encoded(), v3.encoded(), v2.encoded());
        lemma_bytes_lt_irreflexive(v2.encoded());
    }
    StorageEntry::lemma_decode_encoded(v1);
    StorageEntry::lemma_decode_encoded(v2);
    StorageEntry::lemma_decode_encoded(v3);
}

} // verus!
