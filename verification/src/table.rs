//! The data model of discovery: table names, column schemas, logical types,
//! lookup keys, and the schema of a table as a whole.

use vstd::prelude::*;
use vstd::string::*;

use crate::quoting::{quote_identifier_sql, spec_quote_ident};
use crate::text::{append_dec_u32, spec_dec};
use crate::TableId;

verus! {

/// A table, named by its schema and its name. Equality is by both parts.
#[derive(Debug, Clone)]
pub struct TableName {
    pub schema: String,
    pub name: String,
}

impl TableName {
    /// Renders the table into SQL as a quoted-identifier dotted pair.
    pub fn as_quoted_identifier(&self) -> (r: String)
        ensures
            r@ == spec_quote_ident(self.schema@) + "."@ + spec_quote_ident(self.name@),
    {
        let mut s = quote_identifier_sql(self.schema.as_str());
        s.append(".");
        let quoted_name = quote_identifier_sql(self.name.as_str());
        s.append(quoted_name.as_str());
        assert(s@ =~= spec_quote_ident(self.schema@) + "."@ + spec_quote_ident(self.name@));
        s
    }
}

/// The name under which the Postgres driver knows a type OID, if any: a
/// fixed table of Postgres' well-known types.
pub uninterp spec fn known_type_name(oid: u32) -> Option<Seq<char>>;

/// The name a resolved logical type carries: the well-known name when the
/// OID is known, else an unnamed fallback that spells out the OID.
pub open spec fn spec_type_name(oid: u32) -> Seq<char> {
    match known_type_name(oid) {
        Some(n) => n,
        None => "unnamed(oid: "@ + spec_dec(oid as int) + ")"@,
    }
}

/// Relies on `tokio_postgres::types::Type::from_oid` and `Type::name`: the
/// result is a fixed function of the OID, naming Postgres' well-known types.
#[verifier::external_body]
fn well_known_type_name(oid: u32) -> (r: Option<String>)
    ensures
        r matches Some(s) ==> known_type_name(oid) == Some(s@),
        r is None ==> known_type_name(oid) is None,
{
    tokio_postgres::types::Type::from_oid(oid).map(|t| t.name().to_string())
}

/// A column's logical type. Unknown OIDs are not an error: they resolve to
/// an unnamed placeholder carrying the raw OID.
#[derive(Debug, Clone)]
pub struct LogicalType {
    pub oid: u32,
    pub name: String,
    pub schema: String,
}

/// Resolves a type OID against the built-in table of well-known Postgres
/// types, falling back to an unnamed placeholder.
pub fn resolve_type(oid: u32) -> (r: LogicalType)
    ensures
        r.oid == oid,
        r.name@ == spec_type_name(oid),
        r.schema@ == "pg_catalog"@,
{
    let schema = String::from_str("pg_catalog");
    match well_known_type_name(oid) {
        Some(n) => LogicalType { oid, name: n, schema },
        None => {
            let mut name = String::from_str("unnamed(oid: ");
            append_dec_u32(&mut name, oid);
            name.append(")");
            assert(name@ =~= "unnamed(oid: "@ + spec_dec(oid as int) + ")"@);
            LogicalType { oid, name, schema }
        },
    }
}

/// One column of a table as discovery reports it.
#[derive(Debug, Clone)]
pub struct ColumnSchema {
    pub name: String,
    pub typ: LogicalType,
    pub modifier: i32,
    pub nullable: bool,
}

/// How a row of the table is identified downstream: by a unique index over
/// published NOT NULL columns, or by comparing the full row.
#[derive(Debug, Clone)]
pub enum LookupKey {
    Key { name: String, columns: Vec<String> },
    FullRow,
}

/// The discovered shape of one table.
#[derive(Debug, Clone)]
pub struct TableSchema {
    pub table_name: TableName,
    pub table_id: TableId,
    pub column_schemas: Vec<ColumnSchema>,
    pub lookup_key: LookupKey,
}

impl TableSchema {
    /// A lookup key is safe exactly when it is a `Key`: tables without one
    /// are skipped at discovery time.
    pub fn has_safe_lookup_key(&self) -> (r: bool)
        ensures
            r == (self.lookup_key is Key),
    {
        match self.lookup_key {
            LookupKey::Key { .. } => true,
            LookupKey::FullRow => false,
        }
    }
}

} // verus!
