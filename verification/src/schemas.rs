//! Assembling per-table schemas into the map handed to the snapshot and
//! streaming phases. Tables without a safe lookup key are filtered out here.

use std::collections::HashMap;

use vstd::prelude::*;
use vstd::string::*;

use crate::errors::ReplicationClientError;
use crate::table::{TableName, TableSchema};
use crate::TableId;

verus! {

broadcast use vstd::std_specs::hash::group_hash_axioms;

/// Whether a schema may enter the discovery result.
pub open spec fn schema_safe(s: TableSchema) -> bool {
    s.lookup_key is Key
}

/// Turns the looked-up relation OID into the table id, failing with
/// `MissingTable` when the catalog knows no such table.
pub fn require_table_id(table_name: &TableName, found: Option<TableId>) -> (r: Result<
    TableId,
    ReplicationClientError,
>)
    ensures
        found matches Some(id) ==> (r matches Ok(i) && i == id),
        found is None ==> (r matches Err(e) && (e matches
            ReplicationClientError::MissingTable(t) && t.schema@ == table_name.schema@ && t.name@
            == table_name.name@)),
{
    match found {
        Some(id) => Ok(id),
        None => Err(
            ReplicationClientError::MissingTable(
                TableName { schema: table_name.schema.clone(), name: table_name.name.clone() },
            ),
        ),
    }
}

/// Collects discovered schemas into a map keyed by table id. A table whose
/// lookup key is `FullRow` is never in the result; among several schemas
/// with one id, the last safe one wins.
pub fn collect_safe_table_schemas(schemas: Vec<TableSchema>) -> (m: HashMap<TableId, TableSchema>)
    ensures
        forall|id: TableId| #[trigger] m@.contains_key(id) ==> schema_safe(m@[id]),
        forall|id: TableId|
            #[trigger] m@.contains_key(id) <==> exists|i: int|
                0 <= i < schemas@.len() && (#[trigger] schemas@[i]).table_id == id && schema_safe(
                    schemas@[i],
                ),
        forall|id: TableId|
            #[trigger] m@.contains_key(id) ==> exists|i: int|
                0 <= i < schemas@.len() && (#[trigger] schemas@[i]).table_id == id && schema_safe(
                    schemas@[i],
                ) && m@[id] == schemas@[i] && (forall|k: int|
                    i < k < schemas@.len() && (#[trigger] schemas@[k]).table_id == id
                        ==> !schema_safe(schemas@[k])),
{
    let ghost orig = schemas@;
    let mut remaining = schemas;
    let mut m: HashMap<TableId, TableSchema> = HashMap::new();
    // Walking from the back and keeping the first hit per id is the same as
    // walking forward and overwriting.
    while remaining.len() > 0
        invariant
            remaining@.len() <= orig.len(),
            remaining@ == orig.subrange(0, remaining@.len() as int),
            forall|id: TableId|
                #[trigger] m@.contains_key(id) <==> exists|i: int|
                    remaining@.len() <= i < orig.len() && (#[trigger] orig[i]).table_id == id
                        && schema_safe(orig[i]),
            forall|id: TableId|
                #[trigger] m@.contains_key(id) ==> exists|i: int|
                    remaining@.len() <= i < orig.len() && (#[trigger] orig[i]).table_id == id
                        && schema_safe(orig[i]) && m@[id] == orig[i] && (forall|k: int|
                        i < k < orig.len() && (#[trigger] orig[k]).table_id == id ==> !schema_safe(
                            orig[k],
                        )),
        decreases remaining.len(),
    {
        let ghost prev = remaining@;
        let ghost pos: int = prev.len() - 1;
        let s = remaining.pop().unwrap();
        proof {
            assert(s == prev[pos]);
            assert(prev =~= orig.subrange(0, pos + 1));
            assert(s == orig[pos]);
            assert(remaining@ =~= orig.subrange(0, pos));
        }
        if s.has_safe_lookup_key() && !m.contains_key(&s.table_id) {
            m.insert(s.table_id, s);
        }
    }
    proof {
        assert(forall|id: TableId|
            #[trigger] m@.contains_key(id) ==> schema_safe(m@[id]));
    }
    m
}

} // verus!
