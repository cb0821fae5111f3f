//! Interpretation of catalog query results. The connection layer hands each
//! result row over as plain optional strings; everything decided about them
//! is decided here.

use vstd::prelude::*;
use vstd::string::*;

use crate::errors::ReplicationClientError;
use crate::lsn::{spec_lsn_of_text, valid_lsn_text, Lsn};
use crate::table::{resolve_type, spec_type_name, ColumnSchema, TableName};
use crate::text::{
    i32_text_val, parse_i32_str, parse_u32_str, spec_dec_val, str_eq, u32_text_digits,
    valid_i32_text, valid_u32_text,
};
use crate::TableId;

verus! {

/// Whether a catalog text cell parses as a `u32`.
pub open spec fn oid_text_ok(t: Seq<char>) -> bool {
    valid_u32_text(t) && spec_dec_val(u32_text_digits(t)) <= u32::MAX
}

/// Whether a catalog text cell parses as an `i32`.
pub open spec fn typmod_text_ok(t: Seq<char>) -> bool {
    valid_i32_text(t) && i32::MIN <= i32_text_val(t) && i32_text_val(t) <= i32::MAX
}

/// One row of the column-discovery query over `pg_attribute`.
pub struct ColumnRow {
    pub name: Option<String>,
    pub type_oid: Option<String>,
    pub type_modifier: Option<String>,
    pub not_null: Option<String>,
}

/// Whether a column row has everything a `ColumnSchema` needs.
pub open spec fn column_row_ok(row: ColumnRow) -> bool {
    &&& row.name is Some
    &&& row.type_oid matches Some(o) && oid_text_ok(o@)
    &&& row.type_modifier matches Some(m) && typmod_text_ok(m@)
    &&& row.not_null is Some
}

/// The error a bad column row is reported with.
pub open spec fn column_row_err(row: ColumnRow, e: ReplicationClientError) -> bool {
    if row.name is None {
        e matches ReplicationClientError::MissingColumn(c, t) && c@ == "attname"@ && t@
            == "pg_attribute"@
    } else if row.type_oid is None {
        e matches ReplicationClientError::MissingColumn(c, t) && c@ == "atttypid"@ && t@
            == "pg_attribute"@
    } else if !oid_text_ok(row.type_oid->0@) {
        e is OidColumnNotU32
    } else if row.type_modifier is None {
        e matches ReplicationClientError::MissingColumn(c, t) && c@ == "atttypmod"@ && t@
            == "pg_attribute"@
    } else if !typmod_text_ok(row.type_modifier->0@) {
        e is TypeModifierColumnNotI32
    } else {
        e matches ReplicationClientError::MissingColumn(c, t) && c@ == "attnotnull"@ && t@
            == "pg_attribute"@
    }
}

/// How a built column schema relates to the row it was read from.
pub open spec fn column_matches_row(cs: ColumnSchema, row: ColumnRow) -> bool {
    &&& row.name matches Some(n) && cs.name@ == n@
    &&& row.type_oid matches Some(o) && cs.typ.oid as int == spec_dec_val(u32_text_digits(o@))
    &&& cs.typ.name@ == spec_type_name(cs.typ.oid)
    &&& cs.typ.schema@ == "pg_catalog"@
    &&& row.type_modifier matches Some(m) && cs.modifier as int == i32_text_val(m@)
    &&& row.not_null matches Some(nn) && cs.nullable == (nn@ != "t"@)
}

/// Builds one `ColumnSchema` from one catalog row. A missing cell is a
/// `MissingColumn`, a cell that does not parse is an `OidColumnNotU32` or
/// `TypeModifierColumnNotI32`; an unknown type OID is not an error.
pub fn parse_column_row(row: &ColumnRow) -> (r: Result<ColumnSchema, ReplicationClientError>)
    ensures
        r is Ok <==> column_row_ok(*row),
        r matches Ok(cs) ==> column_matches_row(cs, *row),
        r matches Err(e) ==> column_row_err(*row, e),
{
    let name = match &row.name {
        Some(n) => n.clone(),
        None => {
            return Err(
                ReplicationClientError::MissingColumn(
                    String::from_str("attname"),
                    String::from_str("pg_attribute"),
                ),
            );
        },
    };
    let type_oid = match &row.type_oid {
        Some(o) => o.clone(),
        None => {
            return Err(
                ReplicationClientError::MissingColumn(
                    String::from_str("atttypid"),
                    String::from_str("pg_attribute"),
                ),
            );
        },
    };
    let oid = match parse_u32_str(type_oid.as_str()) {
        Some(oid) => oid,
        None => {
            return Err(ReplicationClientError::OidColumnNotU32);
        },
    };
    let typ = resolve_type(oid);
    let type_modifier = match &row.type_modifier {
        Some(m) => m.clone(),
        None => {
            return Err(
                ReplicationClientError::MissingColumn(
                    String::from_str("atttypmod"),
                    String::from_str("pg_attribute"),
                ),
            );
        },
    };
    let modifier = match parse_i32_str(type_modifier.as_str()) {
        Some(m) => m,
        None => {
            return Err(ReplicationClientError::TypeModifierColumnNotI32);
        },
    };
    let not_null = match &row.not_null {
        Some(nn) => nn.clone(),
        None => {
            return Err(
                ReplicationClientError::MissingColumn(
                    String::from_str("attnotnull"),
                    String::from_str("pg_attribute"),
                ),
            );
        },
    };
    let nullable = !str_eq(not_null.as_str(), "t");
    Ok(ColumnSchema { name, typ, modifier, nullable })
}

/// Builds the column list of a table from the rows of the discovery query,
/// in row order. The first bad row decides the error.
pub fn column_schemas_from_rows(rows: &Vec<ColumnRow>) -> (r: Result<
    Vec<ColumnSchema>,
    ReplicationClientError,
>)
    ensures
        r is Ok <==> (forall|i: int| 0 <= i < rows@.len() ==> column_row_ok(#[trigger] rows@[i])),
        r matches Ok(cols) ==> cols@.len() == rows@.len() && (forall|i: int|
            0 <= i < rows@.len() ==> column_matches_row(#[trigger] cols@[i], rows@[i])),
        r matches Err(e) ==> exists|i: int|
            0 <= i < rows@.len() && !column_row_ok(#[trigger] rows@[i]) && (forall|j: int|
                0 <= j < i ==> column_row_ok(#[trigger] rows@[j])) && column_row_err(rows@[i], e),
{
    let mut cols: Vec<ColumnSchema> = Vec::new();
    let n = rows.len();
    let mut i: usize = 0;
    // `cols` mirrors the prefix of the rows done so far.
    while i < n
        invariant
            0 <= i <= n,
            n == rows@.len(),
            cols@.len() == i,
            forall|j: int| 0 <= j < i ==> column_row_ok(#[trigger] rows@[j]),
            forall|j: int| 0 <= j < i ==> column_matches_row(#[trigger] cols@[j], rows@[j]),
        decreases n - i,
    {
        match parse_column_row(&rows[i]) {
            Ok(cs) => {
                cols.push(cs);
            },
            Err(e) => {
                return Err(e);
            },
        }
        i += 1;
    }
    Ok(cols)
}

/// One row of the table-identification query over `pg_class`.
pub struct TableIdRow {
    pub oid: Option<String>,
    pub replica_identity: Option<String>,
}

/// Whether a replica identity is one the client supports: default or full.
pub open spec fn replica_identity_supported(t: Seq<char>) -> bool {
    t == "d"@ || t == "f"@
}

/// The outcome the first table row decides.
pub open spec fn table_id_row_result(
    row: TableIdRow,
    r: Result<Option<TableId>, ReplicationClientError>,
) -> bool {
    if row.replica_identity is None {
        r matches Err(e) && e matches ReplicationClientError::MissingColumn(c, t) && c@
            == "relreplident"@ && t@ == "pg_class"@
    } else if !replica_identity_supported(row.replica_identity->0@) {
        r matches Err(e) && e matches ReplicationClientError::ReplicaIdentityNotSupported(s) && s@
            == row.replica_identity->0@
    } else if row.oid is None {
        r matches Err(e) && e matches ReplicationClientError::MissingColumn(c, t) && c@ == "oid"@
            && t@ == "pg_class"@
    } else if !oid_text_ok(row.oid->0@) {
        r matches Err(e) && e is OidColumnNotU32
    } else {
        r matches Ok(o) && o matches Some(id) && id as int == spec_dec_val(
            u32_text_digits(row.oid->0@),
        )
    }
}

/// Reads the relation OID out of the table-identification rows. No row at
/// all means the table does not exist, which is not an error here. A replica
/// identity other than default or full is refused.
pub fn table_id_from_rows(rows: &Vec<TableIdRow>) -> (r: Result<
    Option<TableId>,
    ReplicationClientError,
>)
    ensures
        rows@.len() == 0 ==> (r matches Ok(o) && o is None),
        rows@.len() > 0 ==> table_id_row_result(rows@[0], r),
{
    if rows.len() == 0 {
        return Ok(None);
    }
    let identity = match &rows[0].replica_identity {
        Some(s) => s.clone(),
        None => {
            return Err(
                ReplicationClientError::MissingColumn(
                    String::from_str("relreplident"),
                    String::from_str("pg_class"),
                ),
            );
        },
    };
    if !(str_eq(identity.as_str(), "d") || str_eq(identity.as_str(), "f")) {
        return Err(ReplicationClientError::ReplicaIdentityNotSupported(identity));
    }
    let oid_text = match &rows[0].oid {
        Some(o) => o.clone(),
        None => {
            return Err(
                ReplicationClientError::MissingColumn(
                    String::from_str("oid"),
                    String::from_str("pg_class"),
                ),
            );
        },
    };
    match parse_u32_str(oid_text.as_str()) {
        Some(oid) => Ok(Some(oid)),
        None => Err(ReplicationClientError::OidColumnNotU32),
    }
}

/// One row of the slot query over `pg_replication_slots`.
pub struct SlotRow {
    pub confirmed_flush_lsn: Option<String>,
}

/// The slot state the catalog reports: for now, only where the slot has
/// confirmed flushing up to.
#[derive(Clone, Copy, PartialEq, Eq, Structural, Debug)]
pub struct SlotInfo {
    pub confirmed_flush_lsn: Lsn,
}

/// The outcome the first slot row decides.
pub open spec fn slot_row_result(
    row: SlotRow,
    r: Result<Option<SlotInfo>, ReplicationClientError>,
) -> bool {
    if row.confirmed_flush_lsn is None {
        r matches Err(e) && e matches ReplicationClientError::MissingColumn(c, t) && c@
            == "confirmed_flush_lsn"@ && t@ == "pg_replication_slots"@
    } else if !valid_lsn_text(row.confirmed_flush_lsn->0@) {
        r matches Err(e) && e is InvalidPgLsn
    } else {
        r matches Ok(o) && o matches Some(info) && info.confirmed_flush_lsn.value as int
            == spec_lsn_of_text(row.confirmed_flush_lsn->0@)
    }
}

/// Reads the confirmed flush LSN of an existing slot. No row means no such
/// slot, which is not an error here; a malformed LSN is.
pub fn slot_info_from_rows(rows: &Vec<SlotRow>) -> (r: Result<
    Option<SlotInfo>,
    ReplicationClientError,
>)
    ensures
        rows@.len() == 0 ==> (r matches Ok(o) && o is None),
        rows@.len() > 0 ==> slot_row_result(rows@[0], r),
{
    if rows.len() == 0 {
        return Ok(None);
    }
    let text = match &rows[0].confirmed_flush_lsn {
        Some(t) => t.clone(),
        None => {
            return Err(
                ReplicationClientError::MissingColumn(
                    String::from_str("confirmed_flush_lsn"),
                    String::from_str("pg_replication_slots"),
                ),
            );
        },
    };
    match Lsn::parse_text(text.as_str()) {
        Some(lsn) => Ok(Some(SlotInfo { confirmed_flush_lsn: lsn })),
        None => Err(ReplicationClientError::InvalidPgLsn),
    }
}

/// One row of `CREATE_REPLICATION_SLOT`'s result.
pub struct CreatedSlotRow {
    pub consistent_point: Option<String>,
}

/// The outcome the first created-slot row decides.
pub open spec fn created_slot_row_result(
    row: CreatedSlotRow,
    r: Result<SlotInfo, ReplicationClientError>,
) -> bool {
    if row.consistent_point is None {
        r matches Err(e) && e matches ReplicationClientError::MissingColumn(c, t) && c@
            == "consistent_point"@ && t@ == "create_replication_slot"@
    } else if !valid_lsn_text(row.consistent_point->0@) {
        r matches Err(e) && e is InvalidPgLsn
    } else {
        r matches Ok(info) && info.confirmed_flush_lsn.value as int == spec_lsn_of_text(
            row.consistent_point->0@,
        )
    }
}

/// Reads the consistent point of a freshly created slot. Here a missing row
/// is an error: the command was supposed to create one.
pub fn created_slot_from_rows(rows: &Vec<CreatedSlotRow>) -> (r: Result<
    SlotInfo,
    ReplicationClientError,
>)
    ensures
        rows@.len() == 0 ==> (r matches Err(e) && e is FailedToCreateSlot),
        rows@.len() > 0 ==> created_slot_row_result(rows@[0], r),
{
    if rows.len() == 0 {
        return Err(ReplicationClientError::FailedToCreateSlot);
    }
    let text = match &rows[0].consistent_point {
        Some(t) => t.clone(),
        None => {
            return Err(
                ReplicationClientError::MissingColumn(
                    String::from_str("consistent_point"),
                    String::from_str("create_replication_slot"),
                ),
            );
        },
    };
    match Lsn::parse_text(text.as_str()) {
        Some(lsn) => Ok(SlotInfo { confirmed_flush_lsn: lsn }),
        None => Err(ReplicationClientError::InvalidPgLsn),
    }
}

/// One row of `pg_publication_tables`.
pub struct PublicationTableRow {
    pub schema: Option<String>,
    pub table: Option<String>,
}

pub open spec fn publication_row_ok(row: PublicationTableRow) -> bool {
    row.schema is Some && row.table is Some
}

/// The error a bad publication row is reported with.
pub open spec fn publication_row_err(row: PublicationTableRow, e: ReplicationClientError) -> bool {
    if row.schema is None {
        e matches ReplicationClientError::MissingColumn(c, t) && c@ == "schemaname"@ && t@
            == "pg_publication_tables"@
    } else {
        e matches ReplicationClientError::MissingColumn(c, t) && c@ == "tablename"@ && t@
            == "pg_publication_tables"@
    }
}

/// Turns the rows of `pg_publication_tables` into table names, in row
/// order, one for one.
pub fn publication_tables_from_rows(rows: &Vec<PublicationTableRow>) -> (r: Result<
    Vec<TableName>,
    ReplicationClientError,
>)
    ensures
        r is Ok <==> (forall|i: int|
            0 <= i < rows@.len() ==> publication_row_ok(#[trigger] rows@[i])),
        r matches Ok(names) ==> names@.len() == rows@.len() && (forall|i: int|
            0 <= i < rows@.len() ==> (#[trigger] names@[i]).schema@ == rows@[i].schema->0@
                && names@[i].name@ == rows@[i].table->0@),
        r matches Err(e) ==> exists|i: int|
            0 <= i < rows@.len() && !publication_row_ok(#[trigger] rows@[i]) && (forall|j: int|
                0 <= j < i ==> publication_row_ok(#[trigger] rows@[j])) && publication_row_err(
                rows@[i],
                e,
            ),
{
    let mut names: Vec<TableName> = Vec::new();
    let n = rows.len();
    let mut i: usize = 0;
    while i < n
        invariant
            0 <= i <= n,
            n == rows@.len(),
            names@.len() == i,
            forall|j: int| 0 <= j < i ==> publication_row_ok(#[trigger] rows@[j]),
            forall|j: int|
                0 <= j < i ==> (#[trigger] names@[j]).schema@ == rows@[j].schema->0@
                    && names@[j].name@ == rows@[j].table->0@,
        decreases n - i,
    {
        let schema = match &rows[i].schema {
            Some(s) => s.clone(),
            None => {
                return Err(
                    ReplicationClientError::MissingColumn(
                        String::from_str("schemaname"),
                        String::from_str("pg_publication_tables"),
                    ),
                );
            },
        };
        let table = match &rows[i].table {
            Some(t) => t.clone(),
            None => {
                return Err(
                    ReplicationClientError::MissingColumn(
                        String::from_str("tablename"),
                        String::from_str("pg_publication_tables"),
                    ),
                );
            },
        };
        names.push(TableName { schema, name: table });
        i += 1;
    }
    Ok(names)
}

/// Whether a publication exists, given how many rows its existence query
/// returned.
pub fn publication_exists_from_row_count(rows_returned: usize) -> (r: bool)
    ensures
        r == (rows_returned > 0),
{
    rows_returned > 0
}

} // verus!
