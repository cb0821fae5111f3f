//! Interpretation of catalog rows: column discovery, table identification,
//! slot rows, and publication tables, with every error kind exercised.

use pg_replicate::errors::ReplicationClientError;
use pg_replicate::rows::{
    column_schemas_from_rows, created_slot_from_rows, publication_exists_from_row_count,
    publication_tables_from_rows, slot_info_from_rows, table_id_from_rows, ColumnRow,
    CreatedSlotRow, PublicationTableRow, SlotRow, TableIdRow,
};

fn column_row(name: &str, oid: &str, typmod: &str, not_null: &str) -> ColumnRow {
    ColumnRow {
        name: Some(name.to_string()),
        type_oid: Some(oid.to_string()),
        type_modifier: Some(typmod.to_string()),
        not_null: Some(not_null.to_string()),
    }
}

#[test]
fn column_rows_build_schemas_in_order() {
    let rows = vec![
        column_row("id", "23", "-1", "t"),
        column_row("email", "25", "-1", "t"),
        column_row("data", "25", "-1", "f"),
    ];
    let cols = column_schemas_from_rows(&rows).unwrap();
    assert_eq!(cols.len(), 3);
    assert_eq!(cols[0].name, "id");
    assert_eq!(cols[0].typ.oid, 23);
    assert_eq!(cols[0].typ.name, "int4");
    assert_eq!(cols[0].typ.schema, "pg_catalog");
    assert_eq!(cols[0].modifier, -1);
    assert!(!cols[0].nullable);
    assert_eq!(cols[1].name, "email");
    assert_eq!(cols[1].typ.name, "text");
    assert!(cols[2].nullable);
}

#[test]
fn unknown_type_oid_is_not_an_error() {
    let rows = vec![column_row("payload", "999999", "64", "f")];
    let cols = column_schemas_from_rows(&rows).unwrap();
    assert_eq!(cols[0].typ.oid, 999999);
    assert_eq!(cols[0].typ.name, "unnamed(oid: 999999)");
    assert_eq!(cols[0].typ.schema, "pg_catalog");
    assert_eq!(cols[0].modifier, 64);
}

#[test]
fn missing_column_name_is_reported() {
    let rows = vec![ColumnRow {
        name: None,
        type_oid: Some("23".to_string()),
        type_modifier: Some("-1".to_string()),
        not_null: Some("t".to_string()),
    }];
    match column_schemas_from_rows(&rows) {
        Err(ReplicationClientError::MissingColumn(c, t)) => {
            assert_eq!(c, "attname");
            assert_eq!(t, "pg_attribute");
        }
        other => panic!("expected MissingColumn, got {:?}", other),
    }
}

#[test]
fn bad_type_oid_is_reported() {
    let rows = vec![column_row("id", "not_a_number", "-1", "t")];
    assert!(matches!(
        column_schemas_from_rows(&rows),
        Err(ReplicationClientError::OidColumnNotU32)
    ));
    // Too large for a u32 as well.
    let rows = vec![column_row("id", "4294967296", "-1", "t")];
    assert!(matches!(
        column_schemas_from_rows(&rows),
        Err(ReplicationClientError::OidColumnNotU32)
    ));
}

#[test]
fn bad_type_modifier_is_reported() {
    let rows = vec![column_row("id", "23", "x", "t")];
    assert!(matches!(
        column_schemas_from_rows(&rows),
        Err(ReplicationClientError::TypeModifierColumnNotI32)
    ));
}

#[test]
fn first_bad_row_decides_the_error() {
    let rows = vec![column_row("id", "23", "-1", "t"), column_row("data", "bad", "-1", "f")];
    assert!(matches!(
        column_schemas_from_rows(&rows),
        Err(ReplicationClientError::OidColumnNotU32)
    ));
}

#[test]
fn table_id_rows_yield_the_oid() {
    let rows = vec![TableIdRow {
        oid: Some("16385".to_string()),
        replica_identity: Some("d".to_string()),
    }];
    assert_eq!(table_id_from_rows(&rows).unwrap(), Some(16385));
    let rows = vec![TableIdRow {
        oid: Some("16385".to_string()),
        replica_identity: Some("f".to_string()),
    }];
    assert_eq!(table_id_from_rows(&rows).unwrap(), Some(16385));
}

#[test]
fn absent_table_is_none() {
    let rows: Vec<TableIdRow> = vec![];
    assert_eq!(table_id_from_rows(&rows).unwrap(), None);
}

#[test]
fn unsupported_replica_identity_is_refused() {
    let rows = vec![TableIdRow {
        oid: Some("16385".to_string()),
        replica_identity: Some("n".to_string()),
    }];
    match table_id_from_rows(&rows) {
        Err(ReplicationClientError::ReplicaIdentityNotSupported(s)) => assert_eq!(s, "n"),
        other => panic!("expected ReplicaIdentityNotSupported, got {:?}", other),
    }
}

#[test]
fn slot_rows_parse_the_lsn() {
    let rows = vec![SlotRow { confirmed_flush_lsn: Some("0/16B3748".to_string()) }];
    let info = slot_info_from_rows(&rows).unwrap().unwrap();
    assert_eq!(info.confirmed_flush_lsn.value, 0x16B3748);
}

#[test]
fn absent_slot_is_none() {
    let rows: Vec<SlotRow> = vec![];
    assert_eq!(slot_info_from_rows(&rows).unwrap(), None);
}

#[test]
fn malformed_slot_lsn_is_refused() {
    let rows = vec![SlotRow { confirmed_flush_lsn: Some("nonsense".to_string()) }];
    assert!(matches!(slot_info_from_rows(&rows), Err(ReplicationClientError::InvalidPgLsn)));
}

#[test]
fn created_slot_reads_the_consistent_point() {
    let rows = vec![CreatedSlotRow { consistent_point: Some("1/CAFE0000".to_string()) }];
    let info = created_slot_from_rows(&rows).unwrap();
    assert_eq!(info.confirmed_flush_lsn.value, 0x1_CAFE_0000);
}

#[test]
fn slot_creation_without_a_row_fails() {
    let rows: Vec<CreatedSlotRow> = vec![];
    assert!(matches!(
        created_slot_from_rows(&rows),
        Err(ReplicationClientError::FailedToCreateSlot)
    ));
}

#[test]
fn publication_tables_round_trip() {
    // A publication over exactly these tables reports exactly these names.
    let rows = vec![
        PublicationTableRow {
            schema: Some("public".to_string()),
            table: Some("orders".to_string()),
        },
        PublicationTableRow {
            schema: Some("sales".to_string()),
            table: Some("customers".to_string()),
        },
    ];
    let names = publication_tables_from_rows(&rows).unwrap();
    assert_eq!(names.len(), 2);
    assert_eq!(names[0].schema, "public");
    assert_eq!(names[0].name, "orders");
    assert_eq!(names[1].schema, "sales");
    assert_eq!(names[1].name, "customers");
}

#[test]
fn publication_row_without_table_is_reported() {
    let rows = vec![PublicationTableRow { schema: Some("public".to_string()), table: None }];
    match publication_tables_from_rows(&rows) {
        Err(ReplicationClientError::MissingColumn(c, t)) => {
            assert_eq!(c, "tablename");
            assert_eq!(t, "pg_publication_tables");
        }
        other => panic!("expected MissingColumn, got {:?}", other),
    }
}

#[test]
fn publication_existence_follows_the_row_count() {
    assert!(publication_exists_from_row_count(1));
    assert!(publication_exists_from_row_count(7));
    assert!(!publication_exists_from_row_count(0));
}
