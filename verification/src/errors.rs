//! The error taxonomy: every failure of the replication client is one of
//! these kinds. The core never retries; each failure is returned as is.

use vstd::prelude::*;

use crate::table::TableName;

verus! {

/// A failure of the replication client.
#[derive(Debug)]
pub enum ReplicationClientError {
    /// The underlying driver or protocol failed; carries its rendering.
    DatabaseError(String),
    /// A catalog row is missing an expected column: the column, then the
    /// relation it was read from.
    MissingColumn(String, String),
    /// The named publication does not exist.
    MissingPublication(String),
    /// The named table was not found in the catalog.
    MissingTable(TableName),
    /// The relation's replica identity is neither default nor full.
    ReplicaIdentityNotSupported(String),
    /// A column's type cannot be handled downstream: the column, its type
    /// OID, and the relation. Discovery itself never raises this; it falls
    /// back to an unnamed type instead.
    UnsupportedType(String, u32, String),
    /// A catalog OID column failed to parse as a `u32`.
    OidColumnNotU32,
    /// A catalog type-modifier column failed to parse as an `i32`.
    TypeModifierColumnNotI32,
    /// An LSN string failed to parse.
    InvalidPgLsn,
    /// `CREATE_REPLICATION_SLOT` returned no row.
    FailedToCreateSlot,
}

} // verus!
