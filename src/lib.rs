//! Typed access to an MDBX key-value store: a registry of tables with
//! declared key and value types, order-preserving codecs, and the logic of
//! typed transactions and cursors (request encoding, result decoding, the
//! table setup sequence). The engine calls themselves are made by callers.

pub mod codec;
pub mod models;
pub mod tables;
pub mod error;
pub mod tx;
pub mod env;
pub mod model;
