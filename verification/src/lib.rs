//! Core logic of a Postgres logical-replication client: catalog discovery,
//! lookup-key selection, LSN handling, SQL construction with quoting, and
//! the session's transaction discipline.

use vstd::prelude::*;

pub mod errors;
pub mod lookup;
pub mod lsn;
pub mod quoting;
pub mod schemas;
pub mod session;
pub mod sql;
pub mod rows;
pub mod table;
pub mod text;

verus! {

/// The Postgres relation OID of a table: the primary key for schema lookups.
pub type TableId = u32;

} // verus!
