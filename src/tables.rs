//! The fixed registry of tables, each with its ordering kind and its key and
//! value types.

use vstd::prelude::*;
use crate::codec::{Decode, Key};
use crate::models::{Account, Address, BlockNumHash, BlockNumber, Header, StorageEntry, H256};

verus! {

/// How a table orders its entries.
#[derive(Clone, Copy, Debug, PartialEq, Eq, Structural)]
pub enum TableType {
    /// One value per key.
    Table,
    /// A sorted set of values per key.
    DupSort,
}

/// The tables of the store.
#[derive(Clone, Copy, Debug, PartialEq, Eq, Structural)]
pub enum TableId {
    /// Block number to the canonical block's hash.
    CanonicalHeaders,
    /// Block hash to block number.
    HeaderNumbers,
    /// (number, hash) to block header.
    Headers,
    /// Address to account state.
    PlainState,
    /// Address to its storage entries, sorted by slot key.
    PlainStorageState,
}

impl TableId {
    pub open spec fn spec_name(self) -> Seq<char> {
        match self {
            TableId::CanonicalHeaders => "CanonicalHeaders"@,
            TableId::HeaderNumbers => "HeaderNumbers"@,
            TableId::Headers => "Headers"@,
            TableId::PlainState => "PlainState"@,
            TableId::PlainStorageState => "PlainStorageState"@,
        }
    }

    pub open spec fn spec_table_type(self) -> TableType {
        match self {
            TableId::PlainStorageState => TableType::DupSort,
            _ => TableType::Table,
        }
    }

    /// The name under which the table is stored.
    pub fn name(&self) -> (r: &'static str)
        ensures
            r@ == self.spec_name(),
    {
        match self {
            TableId::CanonicalHeaders => "CanonicalHeaders",
            TableId::HeaderNumbers => "HeaderNumbers",
            TableId::Headers => "Headers",
            TableId::PlainState => "PlainState",
            TableId::PlainStorageState => "PlainStorageState",
        }
    }

    pub fn table_type(&self) -> (r: TableType)
        ensures
            r == self.spec_table_type(),
    {
        match self {
            TableId::PlainStorageState => TableType::DupSort,
            _ => TableType::Table,
        }
    }
}

/// Every table, in creation order.
pub open spec fn registry() -> Seq<TableId> {
    seq![
        TableId::CanonicalHeaders,
        TableId::HeaderNumbers,
        TableId::Headers,
        TableId::PlainState,
        TableId::PlainStorageState,
    ]
}

/// The registry, as a list to walk when creating the tables.
pub fn tables() -> (r: Vec<TableId>)
    ensures
        r@ == registry(),
{
    let mut r: Vec<TableId> = Vec::new();
    r.push(TableId::CanonicalHeaders);
    r.push(TableId::HeaderNumbers);
    r.push(TableId::Headers);
    r.push(TableId::PlainState);
    r.push(TableId::PlainStorageState);
    assert(r@ =~= registry());
    r
}

/// Law: the registry lists every table exactly once, and no two tables share
/// a name.
pub proof fn lemma_registry_complete_and_unique()
    ensures
        forall|t: TableId| #[trigger] registry().contains(t),
        forall|i: int, j: int|
            0 <= i < j < registry().len() ==> registry()[i] != registry()[j],
        forall|a: TableId, b: TableId| a != b ==> #[trigger] a.spec_name() != #[trigger] b.spec_name(),
{
    reveal_strlit("CanonicalHeaders");
    reveal_strlit("HeaderNumbers");
    reveal_strlit("Headers");
    reveal_strlit("PlainState");
    reveal_strlit("PlainStorageState");
    assert forall|t: TableId| #[trigger] registry().contains(t) by {
        let i: int = match t {
            TableId::CanonicalHeaders => 0,
            TableId::HeaderNumbers => 1,
            TableId::Headers => 2,
            TableId::PlainState => 3,
            TableId::PlainStorageState => 4,
        };
        assert(registry()[i] == t);
    }
    assert forall|a: TableId, b: TableId| a != b implies #[trigger] a.spec_name()
        != #[trigger] b.spec_name() by {
        assert(a.spec_name().len() != b.spec_name().len());
    }
}

/// A table bound to its key and value types. Typed reads and writes go
/// through this binding, so one table's bytes are never read as another's.
pub trait Table {
    type Key: Key;
    type Value: Decode;

    spec fn spec_id() -> TableId;

    fn id() -> (r: TableId)
        ensures
            r == Self::spec_id(),
    ;
}

/// Block number to canonical hash.
pub struct CanonicalHeaders;

/// Block hash to block number.
pub struct HeaderNumbers;

/// (number, hash) to header.
pub struct Headers;

/// Address to account.
pub struct PlainState;

/// Address to storage entries, sorted by slot key.
pub struct PlainStorageState;

impl Table for CanonicalHeaders {
    type Key = BlockNumber;
    type Value = H256;

    open spec fn spec_id() -> TableId {
        TableId::CanonicalHeaders
    }

    fn id() -> (r: TableId) {
        TableId::CanonicalHeaders
    }
}

impl Table for HeaderNumbers {
    type Key = H256;
    type Value = BlockNumber;

    open spec fn spec_id() -> TableId {
        TableId::HeaderNumbers
    }

    fn id() -> (r: TableId) {
        TableId::HeaderNumbers
    }
}

impl Table for Headers {
    type Key = BlockNumHash;
    type Value = Header;

    open spec fn spec_id() -> TableId {
        TableId::Headers
    }

    fn id() -> (r: TableId) {
        TableId::Headers
    }
}

impl Table for PlainState {
    type Key = Address;
    type Value = Account;

    open spec fn spec_id() -> TableId {
        TableId::PlainState
    }

    fn id() -> (r: TableId) {
        TableId::PlainState
    }
}

impl Table for PlainStorageState {
    type Key = Address;
    type Value = StorageEntry;

    open spec fn spec_id() -> TableId {
        TableId::PlainStorageState
    }

    fn id() -> (r: TableId) {
        TableId::PlainStorageState
    }
}

} // verus!
