//! Construction of every SQL text the client sends. Each builder's contract
//! pins the full text, with all interpolated strings quoted.

use vstd::prelude::*;
use vstd::string::*;

use crate::lsn::{spec_lsn_text, Lsn};
use crate::quoting::{quote_identifier_sql, quote_literal_sql, spec_quote_ident, spec_quote_literal};
use crate::table::{ColumnSchema, TableName};
use crate::text::{append_dec_u32, spec_dec};
use crate::TableId;

verus! {

/// The invariant part of the column-discovery query: every live, non-system,
/// non-generated column of the relation.
pub open spec fn spec_column_info_body(table_id: TableId) -> Seq<char> {
    "select a.attname, a.atttypid, a.atttypmod, a.attnotnull, coalesce(i.indisprimary, false) as primary from pg_attribute a left join pg_index i on a.attrelid = i.indrelid and a.attnum = any(i.indkey) and i.indisprimary = true where a.attnum > 0::int2 and not a.attisdropped and a.attgenerated = '' and a.attrelid = "@
        + spec_dec(table_id as int)
}

/// The column-discovery query. With a publication, a leading CTE collects
/// the publication's column list for the relation and the predicate keeps
/// only those columns, unless the list is empty.
pub open spec fn spec_column_info_query(table_id: TableId, publication: Option<Seq<char>>) -> Seq<
    char,
> {
    match publication {
        None => spec_column_info_body(table_id) + " order by a.attnum"@,
        Some(p) => "with pub_attrs as (select unnest(r.prattrs) from pg_publication_rel r left join pg_publication p on r.prpubid = p.oid where p.pubname = "@
            + spec_quote_literal(p) + " and r.prrelid = "@ + spec_dec(table_id as int) + ") "@
            + spec_column_info_body(table_id)
            + " and (case (select count(*) from pub_attrs) when 0 then true else (a.attnum in (select * from pub_attrs)) end)"@
            + " order by a.attnum"@,
    }
}

/// Builds the column-discovery query.
pub fn column_info_query(table_id: TableId, publication: Option<&str>) -> (r: String)
    ensures
        publication matches Some(p) ==> r@ == spec_column_info_query(table_id, Some(p@)),
        publication is None ==> r@ == spec_column_info_query(table_id, None),
{
    let mut s = String::new();
    match publication {
        Some(p) => {
            s.append(
                "with pub_attrs as (select unnest(r.prattrs) from pg_publication_rel r left join pg_publication p on r.prpubid = p.oid where p.pubname = ",
            );
            let quoted = quote_literal_sql(p);
            s.append(quoted.as_str());
            s.append(" and r.prrelid = ");
            append_dec_u32(&mut s, table_id);
            s.append(") ");
        },
        None => {},
    }
    s.append(
        "select a.attname, a.atttypid, a.atttypmod, a.attnotnull, coalesce(i.indisprimary, false) as primary from pg_attribute a left join pg_index i on a.attrelid = i.indrelid and a.attnum = any(i.indkey) and i.indisprimary = true where a.attnum > 0::int2 and not a.attisdropped and a.attgenerated = '' and a.attrelid = ",
    );
    append_dec_u32(&mut s, table_id);
    match publication {
        Some(_) => {
            s.append(
                " and (case (select count(*) from pub_attrs) when 0 then true else (a.attnum in (select * from pub_attrs)) end)",
            );
        },
        None => {},
    }
    s.append(" order by a.attnum");
    proof {
        match publication {
            Some(p) => {
                assert(s@ =~= spec_column_info_query(table_id, Some(p@)));
            },
            None => {
                assert(s@ =~= spec_column_info_query(table_id, None));
            },
        }
    }
    s
}

/// The candidate-index query: every unique or primary, non-partial,
/// non-deferrable index over only NOT NULL columns, with its name, its
/// column names in index order, and its primary flag.
pub open spec fn spec_lookup_key_query(table_id: TableId) -> Seq<char> {
    "SELECT c2.relname AS index_name, ARRAY_AGG(a.attname ORDER BY x.ordinality) AS columns, i.indisprimary AS is_primary FROM pg_index i JOIN pg_class c1 ON c1.oid = i.indrelid JOIN pg_class c2 ON c2.oid = i.indexrelid JOIN unnest(i.indkey) WITH ORDINALITY AS x(attnum, ordinality) JOIN pg_attribute a ON a.attrelid = c1.oid AND a.attnum = x.attnum WHERE c1.oid = "@
        + spec_dec(table_id as int)
        + " AND (i.indisunique OR i.indisprimary) AND i.indpred IS NULL AND NOT EXISTS (SELECT 1 FROM unnest(i.indkey) attnum JOIN pg_attribute a2 ON a2.attrelid = c1.oid AND a2.attnum = attnum WHERE a2.attnotnull = false) AND NOT EXISTS (SELECT 1 FROM pg_constraint con WHERE con.conindid = i.indexrelid AND con.condeferrable) GROUP BY c2.relname, i.indisprimary"@
}

/// Builds the candidate-index query.
pub fn lookup_key_query(table_id: TableId) -> (r: String)
    ensures
        r@ == spec_lookup_key_query(table_id),
{
    let mut s = String::new();
    s.append(
        "SELECT c2.relname AS index_name, ARRAY_AGG(a.attname ORDER BY x.ordinality) AS columns, i.indisprimary AS is_primary FROM pg_index i JOIN pg_class c1 ON c1.oid = i.indrelid JOIN pg_class c2 ON c2.oid = i.indexrelid JOIN unnest(i.indkey) WITH ORDINALITY AS x(attnum, ordinality) JOIN pg_attribute a ON a.attrelid = c1.oid AND a.attnum = x.attnum WHERE c1.oid = ",
    );
    append_dec_u32(&mut s, table_id);
    s.append(
        " AND (i.indisunique OR i.indisprimary) AND i.indpred IS NULL AND NOT EXISTS (SELECT 1 FROM unnest(i.indkey) attnum JOIN pg_attribute a2 ON a2.attrelid = c1.oid AND a2.attnum = attnum WHERE a2.attnotnull = false) AND NOT EXISTS (SELECT 1 FROM pg_constraint con WHERE con.conindid = i.indexrelid AND con.condeferrable) GROUP BY c2.relname, i.indisprimary",
    );
    assert(s@ =~= spec_lookup_key_query(table_id));
    s
}

/// The table-identification query: the relation OID and its replica
/// identity, by schema and name, both as quoted literals.
pub open spec fn spec_table_info_query(schema: Seq<char>, name: Seq<char>) -> Seq<char> {
    "select c.oid, c.relreplident from pg_class c join pg_namespace n on (c.relnamespace = n.oid) where n.nspname = "@
        + spec_quote_literal(schema) + " and c.relname = "@ + spec_quote_literal(name)
}

/// Builds the table-identification query.
pub fn table_info_query(table: &TableName) -> (r: String)
    ensures
        r@ == spec_table_info_query(table.schema@, table.name@),
{
    let mut s = String::new();
    s.append(
        "select c.oid, c.relreplident from pg_class c join pg_namespace n on (c.relnamespace = n.oid) where n.nspname = ",
    );
    let quoted_schema = quote_literal_sql(table.schema.as_str());
    s.append(quoted_schema.as_str());
    s.append(" and c.relname = ");
    let quoted_name = quote_literal_sql(table.name.as_str());
    s.append(quoted_name.as_str());
    assert(s@ =~= spec_table_info_query(table.schema@, table.name@));
    s
}

/// The slot lookup: the confirmed flush LSN of the named slot.
pub open spec fn spec_slot_query(slot_name: Seq<char>) -> Seq<char> {
    "select confirmed_flush_lsn from pg_replication_slots where slot_name = "@
        + spec_quote_literal(slot_name) + ";"@
}

/// Builds the slot lookup.
pub fn slot_query(slot_name: &str) -> (r: String)
    ensures
        r@ == spec_slot_query(slot_name@),
{
    let mut s = String::new();
    s.append("select confirmed_flush_lsn from pg_replication_slots where slot_name = ");
    let quoted = quote_literal_sql(slot_name);
    s.append(quoted.as_str());
    s.append(";");
    assert(s@ =~= spec_slot_query(slot_name@));
    s
}

/// The replication-protocol command that creates a logical slot bound to
/// the enclosing transaction's snapshot.
pub open spec fn spec_create_slot_command(slot_name: Seq<char>) -> Seq<char> {
    "CREATE_REPLICATION_SLOT "@ + spec_quote_ident(slot_name)
        + " LOGICAL pgoutput USE_SNAPSHOT"@
}

/// Builds the slot-creation command.
pub fn create_slot_command(slot_name: &str) -> (r: String)
    ensures
        r@ == spec_create_slot_command(slot_name@),
{
    let mut s = String::new();
    s.append("CREATE_REPLICATION_SLOT ");
    let quoted = quote_identifier_sql(slot_name);
    s.append(quoted.as_str());
    s.append(" LOGICAL pgoutput USE_SNAPSHOT");
    assert(s@ =~= spec_create_slot_command(slot_name@));
    s
}

/// The query for every table a publication carries.
pub open spec fn spec_publication_tables_query(publication: Seq<char>) -> Seq<char> {
    "select schemaname, tablename from pg_publication_tables where pubname = "@
        + spec_quote_literal(publication) + ";"@
}

/// Builds the publication-tables query.
pub fn publication_tables_query(publication: &str) -> (r: String)
    ensures
        r@ == spec_publication_tables_query(publication@),
{
    let mut s = String::new();
    s.append("select schemaname, tablename from pg_publication_tables where pubname = ");
    let quoted = quote_literal_sql(publication);
    s.append(quoted.as_str());
    s.append(";");
    assert(s@ =~= spec_publication_tables_query(publication@));
    s
}

/// The query that tests whether a publication exists.
pub open spec fn spec_publication_exists_query(publication: Seq<char>) -> Seq<char> {
    "select 1 as exists from pg_publication where pubname = "@ + spec_quote_literal(publication)
        + ";"@
}

/// Builds the publication-existence query.
pub fn publication_exists_query(publication: &str) -> (r: String)
    ensures
        r@ == spec_publication_exists_query(publication@),
{
    let mut s = String::new();
    s.append("select 1 as exists from pg_publication where pubname = ");
    let quoted = quote_literal_sql(publication);
    s.append(quoted.as_str());
    s.append(";");
    assert(s@ =~= spec_publication_exists_query(publication@));
    s
}

/// The quoted column list of a `COPY`, joined with commas.
pub open spec fn spec_column_list(cols: Seq<ColumnSchema>) -> Seq<char>
    decreases cols.len(),
{
    if cols.len() == 0 {
        Seq::empty()
    } else if cols.len() == 1 {
        spec_quote_ident(cols[0].name@)
    } else {
        spec_quote_ident(cols[0].name@) + ", "@ + spec_column_list(cols.drop_first())
    }
}

/// Appends the quoted names of the columns from `from` on.
fn append_column_list(s: &mut String, cols: &Vec<ColumnSchema>, from: usize)
    requires
        from <= cols@.len(),
    ensures
        final(s)@ == old(s)@ + spec_column_list(cols@.skip(from as int)),
    decreases cols@.len() - from,
{
    if from < cols.len() {
        let quoted = quote_identifier_sql(cols[from].name.as_str());
        s.append(quoted.as_str());
        if from + 1 < cols.len() {
            s.append(", ");
        }
        append_column_list(s, cols, from + 1);
        proof {
            assert(cols@.skip(from as int).drop_first() =~= cols@.skip(from as int + 1));
            assert(cols@.skip(from as int)[0] == cols@[from as int]);
            assert(s@ =~= old(s)@ + spec_column_list(cols@.skip(from as int)));
        }
    } else {
        assert(s@ =~= old(s)@ + spec_column_list(cols@.skip(from as int)));
    }
}

/// The `COPY ... TO STDOUT` command of the initial snapshot: the quoted
/// table and the quoted replicated-column list, in text format.
pub open spec fn spec_copy_table_command(table: TableName, cols: Seq<ColumnSchema>) -> Seq<char> {
    "COPY "@ + spec_quote_ident(table.schema@) + "."@ + spec_quote_ident(table.name@) + " ("@
        + spec_column_list(cols) + ") TO STDOUT WITH (FORMAT text);"@
}

/// Builds the snapshot `COPY` command.
pub fn copy_table_command(table: &TableName, column_schemas: &Vec<ColumnSchema>) -> (r: String)
    ensures
        r@ == spec_copy_table_command(*table, column_schemas@),
{
    let mut s = String::new();
    s.append("COPY ");
    let quoted_table = table.as_quoted_identifier();
    s.append(quoted_table.as_str());
    s.append(" (");
    proof {
        assert(column_schemas@.skip(0) =~= column_schemas@);
    }
    append_column_list(&mut s, column_schemas, 0);
    s.append(") TO STDOUT WITH (FORMAT text);");
    assert(s@ =~= spec_copy_table_command(*table, column_schemas@));
    s
}

/// The replication-protocol command that opens the copy-both stream from a
/// start position: protocol version 1, publication names as given.
pub open spec fn spec_start_replication_command(
    publication: Seq<char>,
    slot_name: Seq<char>,
    start_lsn: Lsn,
) -> Seq<char> {
    "START_REPLICATION SLOT "@ + spec_quote_ident(slot_name) + " LOGICAL "@ + spec_lsn_text(
        start_lsn.value,
    ) + " (\"proto_version\" '1', \"publication_names\" "@ + spec_quote_literal(publication)
        + ")"@
}

/// Builds the stream-opening command.
pub fn start_replication_command(publication: &str, slot_name: &str, start_lsn: Lsn) -> (r: String)
    ensures
        r@ == spec_start_replication_command(publication@, slot_name@, start_lsn),
{
    let mut s = String::new();
    s.append("START_REPLICATION SLOT ");
    let quoted_slot = quote_identifier_sql(slot_name);
    s.append(quoted_slot.as_str());
    s.append(" LOGICAL ");
    let lsn_text = start_lsn.to_text();
    s.append(lsn_text.as_str());
    s.append(" (\"proto_version\" '1', \"publication_names\" ");
    let quoted_publication = quote_literal_sql(publication);
    s.append(quoted_publication.as_str());
    s.append(")");
    assert(s@ =~= spec_start_replication_command(publication@, slot_name@, start_lsn));
    s
}

} // verus!
