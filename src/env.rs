//! The environment's decisions: how a storage location is opened, and the
//! sequence of engine steps that creates every table in one transaction.

use vstd::prelude::*;
use crate::error::KVError;
use crate::tables::{registry, tables, TableId, TableType};

verus! {

/// Mode in which an environment is opened.
#[derive(Clone, Copy, Debug, PartialEq, Eq, Structural)]
pub enum EnvKind {
    /// Read-only environment.
    RO,
    /// Read-write environment.
    RW,
}

/// Upper bound of the map size, in bytes.
pub const MAX_MAP_SIZE: usize = 0x100000;

/// Growth step of the map, in bytes.
pub const GROWTH_STEP: usize = 0x100000;

/// Database page size, in bytes.
pub const PAGE_SIZE: usize = 4096;

/// What the engine is opened with.
#[derive(Clone, Copy, Debug, PartialEq, Eq, Structural)]
pub struct EnvConfig {
    /// Whether writes are allowed (with durable syncing).
    pub read_write: bool,
    /// How many named tables the environment may hold.
    pub max_tables: usize,
    pub max_map_size: usize,
    pub growth_step: usize,
    pub page_size: usize,
}

/// The configuration for opening an environment of the given kind: room for
/// every registered table, and fixed geometry.
pub fn open_config(kind: EnvKind) -> (r: EnvConfig)
    ensures
        r.read_write == (kind == EnvKind::RW),
        r.max_tables == registry().len(),
        r.max_map_size == MAX_MAP_SIZE,
        r.growth_step == GROWTH_STEP,
        r.page_size == PAGE_SIZE,
{
    let read_write = match kind {
        EnvKind::RO => false,
        EnvKind::RW => true,
    };
    let t = tables();
    EnvConfig {
        read_write,
        max_tables: t.len(),
        max_map_size: MAX_MAP_SIZE,
        growth_step: GROWTH_STEP,
        page_size: PAGE_SIZE,
    }
}

/// Maps a failure to open the storage location.
pub fn open_outcome<X>(raw: Result<X, String>) -> (r: Result<X, KVError>)
    ensures
        match raw {
            Ok(x) => r == Ok::<X, KVError>(x),
            Err(e) => r == Err::<X, KVError>(KVError::DatabaseLocation(e)),
        },
{
    match raw {
        Ok(x) => Ok(x),
        Err(e) => Err(KVError::DatabaseLocation(e)),
    }
}

/// The next engine step of table creation.
#[derive(Debug, PartialEq, Eq)]
pub enum SetupAction {
    /// Begin a read-write transaction.
    Begin,
    /// Create the table (a no-op where it exists) with its ordering kind.
    Create(TableId, TableType),
    /// Commit the transaction.
    Commit,
    /// Stop: all tables exist, or the failure that ended the setup (the
    /// transaction is then dropped uncommitted).
    Finished(Result<(), KVError>),
}

/// Creation of every registered table inside one write transaction, as a
/// state machine: each call of `step` takes the outcome of the previous
/// action and gives the next one. The transaction is committed only after
/// every table was created.
pub struct CreateTables {
    /// Actions that succeeded so far: the begin, then one per table.
    done: usize,
    finished: bool,
    order: Vec<TableId>,
}

impl CreateTables {
    pub closed spec fn spec_done(&self) -> nat {
        self.done as nat
    }

    pub closed spec fn spec_finished(&self) -> bool {
        self.finished
    }

    pub closed spec fn wf(&self) -> bool {
        &&& self.order@ == registry()
        &&& self.done <= registry().len() + 2
        &&& !self.finished ==> self.done <= registry().len() + 1
    }

    /// A fresh setup and its first action, beginning the transaction.
    pub fn new() -> (r: (CreateTables, SetupAction))
        ensures
            r.0.wf(),
            r.0.spec_done() == 0,
            !r.0.spec_finished(),
            r.1 == SetupAction::Begin,
    {
        (CreateTables { done: 0, finished: false, order: tables() }, SetupAction::Begin)
    }

    /// Takes the outcome of the last action and gives the next one.
    pub fn step(&mut self, outcome: Result<(), String>) -> (r: SetupAction)
        requires
            old(self).wf(),
            !old(self).spec_finished(),
        ensures
            final(self).wf(),
            ({
                let d = old(self).spec_done();
                let n = registry().len();
                match outcome {
                    Err(e) => {
                        &&& final(self).spec_finished()
                        &&& r == SetupAction::Finished(
                            Err(
                                if d == 0 {
                                    KVError::InitTransaction(e)
                                } else if d <= n {
                                    KVError::TableCreation(e)
                                } else {
                                    KVError::Commit(e)
                                },
                            ),
                        )
                    },
                    Ok(_) => {
                        &&& final(self).spec_done() == d + 1
                        &&& if d < n {
                            &&& !final(self).spec_finished()
                            &&& r == SetupAction::Create(
                                registry()[d as int],
                                registry()[d as int].spec_table_type(),
                            )
                        } else if d == n {
                            !final(self).spec_finished() && r == SetupAction::Commit
                        } else {
                            final(self).spec_finished() && r == SetupAction::Finished(Ok(()))
                        }
                    },
                }
            }),
    {
        let n = self.order.len();
        match outcome {
            Err(e) => {
                self.finished = true;
                let err = if self.done == 0 {
                    KVError::InitTransaction(e)
                } else if self.done <= n {
                    KVError::TableCreation(e)
                } else {
                    KVError::Commit(e)
                };
                SetupAction::Finished(Err(err))
            },
            Ok(_) => {
                let d = self.done;
                if d < n {
                    self.done = d + 1;
                    let t = self.order[d];
                    SetupAction::Create(t, t.table_type())
                } else if d == n {
                    self.done = d + 1;
                    SetupAction::Commit
                } else {
                    self.done = d + 1;
                    self.finished = true;
                    SetupAction::Finished(Ok(()))
                }
            },
        }
    }
}

} // verus!
