//! LSN text handling, the transaction-state discipline, and the assembly of
//! the safe-table schema map.

use pg_replicate::errors::ReplicationClientError;
use pg_replicate::lsn::Lsn;
use pg_replicate::schemas::{collect_safe_table_schemas, require_table_id};
use pg_replicate::session::TxnSession;
use pg_replicate::table::{ColumnSchema, LogicalType, LookupKey, TableName, TableSchema};

#[test]
fn lsn_parses_the_catalog_form() {
    let lsn = Lsn::parse_text("0/16B3748").unwrap();
    assert_eq!(lsn.value, 0x16B3748);
    let lsn = Lsn::parse_text("16/B374D848").unwrap();
    assert_eq!(lsn.value, (0x16u64 << 32) | 0xB374D848);
    // Lower-case digits are accepted too.
    let lsn = Lsn::parse_text("a/cafe").unwrap();
    assert_eq!(lsn.value, (0xAu64 << 32) | 0xCAFE);
}

#[test]
fn lsn_rejects_everything_else() {
    assert!(Lsn::parse_text("").is_none());
    assert!(Lsn::parse_text("16B3748").is_none());
    assert!(Lsn::parse_text("0/").is_none());
    assert!(Lsn::parse_text("/0").is_none());
    assert!(Lsn::parse_text("0/16B3748/0").is_none());
    assert!(Lsn::parse_text("0/16G3748").is_none());
    assert!(Lsn::parse_text("123456789/0").is_none());
    assert!(Lsn::parse_text("0 /0").is_none());
}

#[test]
fn lsn_renders_as_two_padded_hex_words() {
    assert_eq!(Lsn { value: 0x16B3748 }.to_text(), "00000000/016B3748");
    assert_eq!(Lsn { value: 0 }.to_text(), "00000000/00000000");
    assert_eq!(Lsn { value: u64::MAX }.to_text(), "FFFFFFFF/FFFFFFFF");
}

#[test]
fn lsn_round_trips_through_text() {
    for v in [0u64, 1, 0x16B3748, 0xDEAD_BEEF_0123_4567, u64::MAX] {
        let lsn = Lsn { value: v };
        assert_eq!(Lsn::parse_text(&lsn.to_text()), Some(lsn));
    }
}

#[test]
fn lsn_ordering_follows_the_value() {
    let a = Lsn { value: 5 };
    let b = Lsn { value: 9 };
    assert!(a.le(&b));
    assert!(!b.le(&a));
    assert!(a.le(&a));
}

#[test]
fn session_plans_commands_from_its_state() {
    let mut session = TxnSession::new();
    assert!(!session.in_txn);
    // Nothing to send while no transaction is open.
    assert_eq!(session.end_sql(true), None);
    assert_eq!(session.end_sql(false), None);
    assert_eq!(session.begin_sql(), "begin read only isolation level repeatable read;");
    session.on_begun();
    assert!(session.in_txn);
    assert_eq!(session.end_sql(true), Some("commit;".to_string()));
    assert_eq!(session.end_sql(false), Some("rollback;".to_string()));
    session.on_ended();
    assert!(!session.in_txn);
    assert_eq!(session.end_sql(true), None);
}

fn schema(id: u32, key: LookupKey) -> TableSchema {
    TableSchema {
        table_name: TableName { schema: "public".to_string(), name: format!("t{}", id) },
        table_id: id,
        column_schemas: vec![ColumnSchema {
            name: "id".to_string(),
            typ: LogicalType {
                oid: 23,
                name: "int4".to_string(),
                schema: "pg_catalog".to_string(),
            },
            modifier: -1,
            nullable: false,
        }],
        lookup_key: key,
    }
}

fn keyed(id: u32) -> TableSchema {
    schema(id, LookupKey::Key { name: format!("t{}_pkey", id), columns: vec!["id".to_string()] })
}

#[test]
fn unsafe_tables_are_filtered_out() {
    let schemas = vec![keyed(1), schema(2, LookupKey::FullRow), keyed(3)];
    let m = collect_safe_table_schemas(schemas);
    assert_eq!(m.len(), 2);
    assert!(m.contains_key(&1));
    assert!(!m.contains_key(&2));
    assert!(m.contains_key(&3));
    for s in m.values() {
        assert!(matches!(s.lookup_key, LookupKey::Key { .. }));
    }
}

#[test]
fn later_schema_with_same_id_wins() {
    let mut second = keyed(7);
    second.table_name.name = "renamed".to_string();
    let m = collect_safe_table_schemas(vec![keyed(7), second]);
    assert_eq!(m.len(), 1);
    assert_eq!(m.get(&7).unwrap().table_name.name, "renamed");
}

#[test]
fn missing_table_id_is_an_error() {
    let t = TableName { schema: "public".to_string(), name: "absent".to_string() };
    match require_table_id(&t, None) {
        Err(ReplicationClientError::MissingTable(name)) => {
            assert_eq!(name.schema, "public");
            assert_eq!(name.name, "absent");
        }
        other => panic!("expected MissingTable, got {:?}", other),
    }
    assert_eq!(require_table_id(&t, Some(42)).unwrap(), 42);
}
