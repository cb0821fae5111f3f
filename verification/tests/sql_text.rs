//! The exact SQL texts the builders produce, including the quoting of
//! interpolated identifiers and literals.

use pg_replicate::lsn::Lsn;
use pg_replicate::sql::{
    column_info_query, copy_table_command, create_slot_command, lookup_key_query,
    publication_exists_query, publication_tables_query, slot_query, start_replication_command,
    table_info_query,
};
use pg_replicate::table::{ColumnSchema, LogicalType, TableName};

fn col(name: &str) -> ColumnSchema {
    ColumnSchema {
        name: name.to_string(),
        typ: LogicalType { oid: 25, name: "text".to_string(), schema: "pg_catalog".to_string() },
        modifier: -1,
        nullable: true,
    }
}

#[test]
fn slot_query_quotes_the_literal() {
    assert_eq!(
        slot_query("my_slot"),
        "select confirmed_flush_lsn from pg_replication_slots where slot_name = 'my_slot';"
    );
    // An embedded quote is doubled: the quoting really ran.
    assert_eq!(
        slot_query("a'b"),
        "select confirmed_flush_lsn from pg_replication_slots where slot_name = 'a''b';"
    );
}

#[test]
fn create_slot_command_quotes_the_identifier() {
    assert_eq!(
        create_slot_command("my_slot"),
        "CREATE_REPLICATION_SLOT my_slot LOGICAL pgoutput USE_SNAPSHOT"
    );
    // A space forces the quoted form.
    assert_eq!(
        create_slot_command("my slot"),
        "CREATE_REPLICATION_SLOT \"my slot\" LOGICAL pgoutput USE_SNAPSHOT"
    );
    // So does a SQL keyword.
    assert_eq!(
        create_slot_command("table"),
        "CREATE_REPLICATION_SLOT \"table\" LOGICAL pgoutput USE_SNAPSHOT"
    );
}

#[test]
fn table_info_query_text() {
    let t = TableName { schema: "public".to_string(), name: "orders".to_string() };
    assert_eq!(
        table_info_query(&t),
        "select c.oid, c.relreplident from pg_class c join pg_namespace n on \
         (c.relnamespace = n.oid) where n.nspname = 'public' and c.relname = 'orders'"
    );
}

#[test]
fn table_info_query_escapes_injection() {
    let t = TableName { schema: "public".to_string(), name: "x'; drop table y; --".to_string() };
    assert_eq!(
        table_info_query(&t),
        "select c.oid, c.relreplident from pg_class c join pg_namespace n on \
         (c.relnamespace = n.oid) where n.nspname = 'public' and c.relname = \
         'x''; drop table y; --'"
    );
}

#[test]
fn publication_queries_text() {
    assert_eq!(
        publication_tables_query("pub1"),
        "select schemaname, tablename from pg_publication_tables where pubname = 'pub1';"
    );
    assert_eq!(
        publication_exists_query("pub1"),
        "select 1 as exists from pg_publication where pubname = 'pub1';"
    );
}

#[test]
fn column_info_query_without_publication() {
    let q = column_info_query(16385, None);
    assert_eq!(
        q,
        "select a.attname, a.atttypid, a.atttypmod, a.attnotnull, \
         coalesce(i.indisprimary, false) as primary from pg_attribute a \
         left join pg_index i on a.attrelid = i.indrelid and a.attnum = any(i.indkey) \
         and i.indisprimary = true where a.attnum > 0::int2 and not a.attisdropped \
         and a.attgenerated = '' and a.attrelid = 16385 order by a.attnum"
    );
}

#[test]
fn column_info_query_with_publication() {
    let q = column_info_query(16385, Some("pub1"));
    assert!(q.starts_with(
        "with pub_attrs as (select unnest(r.prattrs) from pg_publication_rel r \
         left join pg_publication p on r.prpubid = p.oid where p.pubname = 'pub1' \
         and r.prrelid = 16385) "
    ));
    assert!(q.contains("case (select count(*) from pub_attrs) when 0 then true"));
    assert!(q.ends_with(" order by a.attnum"));
}

#[test]
fn lookup_key_query_filters_and_groups() {
    let q = lookup_key_query(16385);
    assert!(q.contains("WHERE c1.oid = 16385"));
    assert!(q.contains("(i.indisunique OR i.indisprimary)"));
    assert!(q.contains("i.indpred IS NULL"));
    assert!(q.contains("a2.attnotnull = false"));
    // Deferrable unique constraints are excluded.
    assert!(q.contains(
        "NOT EXISTS (SELECT 1 FROM pg_constraint con WHERE con.conindid = i.indexrelid \
         AND con.condeferrable)"
    ));
    assert!(q.ends_with("GROUP BY c2.relname, i.indisprimary"));
}

#[test]
fn copy_table_command_text() {
    let t = TableName { schema: "public".to_string(), name: "orders".to_string() };
    let cols = vec![col("id"), col("data")];
    assert_eq!(
        copy_table_command(&t, &cols),
        "COPY public.orders (id, data) TO STDOUT WITH (FORMAT text);"
    );
}

#[test]
fn copy_table_command_quotes_odd_names() {
    let t = TableName { schema: "Sales".to_string(), name: "order table".to_string() };
    let cols = vec![col("user"), col("All\"Caps")];
    assert_eq!(
        copy_table_command(&t, &cols),
        "COPY \"Sales\".\"order table\" (\"user\", \"All\"\"Caps\") TO STDOUT \
         WITH (FORMAT text);"
    );
}

#[test]
fn copy_table_command_with_no_columns() {
    let t = TableName { schema: "public".to_string(), name: "t".to_string() };
    let cols: Vec<ColumnSchema> = vec![];
    assert_eq!(copy_table_command(&t, &cols), "COPY public.t () TO STDOUT WITH (FORMAT text);");
}

#[test]
fn start_replication_command_text() {
    let lsn = Lsn { value: 0x16B3748 };
    assert_eq!(
        start_replication_command("pub1", "slot1", lsn),
        "START_REPLICATION SLOT slot1 LOGICAL 00000000/016B3748 \
         (\"proto_version\" '1', \"publication_names\" 'pub1')"
    );
}
