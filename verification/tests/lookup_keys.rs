//! Lookup-key selection over candidate indexes as the catalog query reports
//! them for each table definition.

use pg_replicate::lookup::{candidates_from_rows, select_lookup_key, IndexCandidate, IndexRow};
use pg_replicate::table::{ColumnSchema, LogicalType, LookupKey};

fn text_type() -> LogicalType {
    LogicalType { oid: 25, name: "text".to_string(), schema: "pg_catalog".to_string() }
}

fn col(name: &str, nullable: bool) -> ColumnSchema {
    ColumnSchema { name: name.to_string(), typ: text_type(), modifier: -1, nullable }
}

fn index_row(name: &str, columns: &str, is_primary: bool) -> IndexRow {
    IndexRow {
        index_name: Some(name.to_string()),
        columns: Some(columns.to_string()),
        is_primary: Some(if is_primary { "t" } else { "f" }.to_string()),
    }
}

fn candidates(rows: Vec<IndexRow>) -> Vec<IndexCandidate> {
    candidates_from_rows(&rows)
}

fn assert_is_key(lookup_key: &LookupKey, expected_columns: &[&str]) {
    match lookup_key {
        LookupKey::Key { name: _, columns } => {
            let expected: Vec<String> = expected_columns.iter().map(|&s| s.to_string()).collect();
            assert_eq!(&expected, columns, "Key columns don't match expected columns");
        }
        LookupKey::FullRow => panic!("Expected Key type but got FullRow"),
    }
}

fn assert_is_full_row(lookup_key: &LookupKey) {
    match lookup_key {
        LookupKey::Key { name, columns } => {
            panic!("Expected FullRow but got Key({}, {:?})", name, columns)
        }
        LookupKey::FullRow => (),
    }
}

#[test]
fn test_lookup_key_with_primary_key() {
    // CREATE TABLE test_pk_table (id INT PRIMARY KEY, data TEXT)
    let cands = candidates(vec![index_row("test_pk_table_pkey", "{id}", true)]);
    let schemas = vec![col("id", false), col("data", true)];
    let key = select_lookup_key(&cands, &schemas);
    assert_is_key(&key, &["id"]);
}

#[test]
fn test_lookup_key_with_composite_primary_key() {
    // CREATE TABLE test_composite_pk_table (id1 INT, id2 TEXT, data TEXT,
    //     PRIMARY KEY (id1, id2))
    let cands = candidates(vec![index_row("test_composite_pk_table_pkey", "{id1,id2}", true)]);
    let schemas = vec![col("id1", false), col("id2", false), col("data", true)];
    let key = select_lookup_key(&cands, &schemas);
    assert_is_key(&key, &["id1", "id2"]);
}

#[test]
fn test_lookup_key_with_unique_constraint() {
    // CREATE TABLE test_unique_constraint_table (id INT,
    //     email TEXT NOT NULL UNIQUE, data TEXT)
    let cands = candidates(vec![index_row(
        "test_unique_constraint_table_email_key",
        "{email}",
        false,
    )]);
    let schemas = vec![col("id", true), col("email", false), col("data", true)];
    let key = select_lookup_key(&cands, &schemas);
    assert_is_key(&key, &["email"]);
}

#[test]
fn test_lookup_key_prefers_primary_key_over_unique() {
    // CREATE TABLE test_pk_and_unique_table (id INT PRIMARY KEY,
    //     email TEXT UNIQUE, data TEXT)
    // The unique index sits on a nullable column, so the catalog query
    // already drops it; the primary key remains.
    let cands = candidates(vec![index_row("test_pk_and_unique_table_pkey", "{id}", true)]);
    let schemas = vec![col("id", false), col("email", true), col("data", true)];
    let key = select_lookup_key(&cands, &schemas);
    assert_is_key(&key, &["id"]);
}

#[test]
fn primary_key_wins_against_unique_candidate() {
    // Both a primary key and a unique index over NOT NULL columns qualify;
    // the primary key is preferred even though the other name sorts first.
    let cands = candidates(vec![
        index_row("aaa_email_key", "{email}", false),
        index_row("zzz_pkey", "{id}", true),
    ]);
    let schemas = vec![col("id", false), col("email", false), col("data", true)];
    let key = select_lookup_key(&cands, &schemas);
    assert_is_key(&key, &["id"]);
}

#[test]
fn test_lookup_key_ignores_nullable_unique_columns() {
    // CREATE TABLE test_nullable_unique_table (id INT,
    //     email TEXT NULL UNIQUE, data TEXT)
    // The only unique index has a nullable column: no candidate survives.
    let cands = candidates(vec![]);
    let schemas = vec![col("id", true), col("email", true), col("data", true)];
    let key = select_lookup_key(&cands, &schemas);
    assert_is_full_row(&key);
}

#[test]
fn test_lookup_key_ignores_partial_indexes() {
    // CREATE TABLE test_partial_index_table (id INT, email TEXT,
    //     active BOOLEAN, data TEXT);
    // CREATE UNIQUE INDEX idx_partial_email ON test_partial_index_table
    //     (email) WHERE active = true;
    // A partial index never reaches the candidate list.
    let cands = candidates(vec![]);
    let schemas = vec![col("id", true), col("email", true), col("active", true), col("data", true)];
    let key = select_lookup_key(&cands, &schemas);
    assert_is_full_row(&key);
}

#[test]
fn test_lookup_key_with_no_unique_constraints() {
    // CREATE TABLE test_no_unique_table (id INT, data TEXT)
    let cands = candidates(vec![]);
    let schemas = vec![col("id", true), col("data", true)];
    let key = select_lookup_key(&cands, &schemas);
    assert_is_full_row(&key);
}

#[test]
fn test_lookup_key_with_multicolumn_unique_index() {
    // CREATE TABLE test_multicolumn_unique_index (first_name TEXT NOT NULL,
    //     last_name TEXT NOT NULL, email TEXT, data TEXT,
    //     CONSTRAINT unique_name UNIQUE (first_name, last_name))
    let cands = candidates(vec![index_row("unique_name", "{first_name,last_name}", false)]);
    let schemas = vec![
        col("first_name", false),
        col("last_name", false),
        col("email", true),
        col("data", true),
    ];
    let key = select_lookup_key(&cands, &schemas);
    assert_is_key(&key, &["first_name", "last_name"]);
}

#[test]
fn test_lookup_key_respects_publication_columns() {
    // CREATE TABLE test_publication_columns (id INT PRIMARY KEY,
    //     email TEXT NOT NULL UNIQUE, data TEXT);
    // CREATE PUBLICATION test_pub FOR TABLE test_publication_columns (email, data)
    // Only published columns count: the primary key is not among them, so
    // the unique index on email is used instead.
    let cands = candidates(vec![
        index_row("test_publication_columns_email_key", "{email}", false),
        index_row("test_publication_columns_pkey", "{id}", true),
    ]);
    let schemas = vec![col("email", false), col("data", true)];
    let key = select_lookup_key(&cands, &schemas);
    assert_is_key(&key, &["email"]);
}

#[test]
fn test_lookup_key_with_multiple_unique_indexes() {
    // CREATE TABLE test_multiple_unique_indexes (id INT,
    //     username TEXT NOT NULL UNIQUE, email TEXT NOT NULL UNIQUE, data TEXT)
    // Among non-primary candidates the alphabetically first index name wins.
    let cands = candidates(vec![
        index_row("test_multiple_unique_indexes_username_key", "{username}", false),
        index_row("test_multiple_unique_indexes_email_key", "{email}", false),
    ]);
    let schemas =
        vec![col("id", true), col("username", false), col("email", false), col("data", true)];
    let key = select_lookup_key(&cands, &schemas);
    assert_is_key(&key, &["email"]);
}

#[test]
fn test_lookup_key_with_mixed_nullable_non_nullable_unique() {
    // CREATE TABLE test_mixed_nullable (id INT, username TEXT NULL UNIQUE,
    //     email TEXT NOT NULL UNIQUE, data TEXT)
    // The nullable unique index is filtered by the query; email remains.
    let cands = candidates(vec![index_row("test_mixed_nullable_email_key", "{email}", false)]);
    let schemas =
        vec![col("id", true), col("username", true), col("email", false), col("data", true)];
    let key = select_lookup_key(&cands, &schemas);
    assert_is_key(&key, &["email"]);
}

#[test]
fn test_lookup_key_with_no_columns_in_publication() {
    // CREATE TABLE test_publication_no_key_columns (id INT PRIMARY KEY,
    //     username TEXT UNIQUE, data TEXT);
    // CREATE PUBLICATION test_pub_only_data FOR TABLE ... (data)
    // No candidate's columns lie inside the published set.
    let cands = candidates(vec![index_row("test_publication_no_key_columns_pkey", "{id}", true)]);
    let schemas = vec![col("data", true)];
    let key = select_lookup_key(&cands, &schemas);
    assert_is_full_row(&key);
}

#[test]
fn test_lookup_key_ignores_deferrable_constraints() {
    // CREATE TABLE test_deferrable_constraint_table (id INT,
    //     email TEXT NOT NULL, username TEXT NOT NULL, data TEXT,
    //     CONSTRAINT deferrable_unique_email UNIQUE (email) DEFERRABLE,
    //     CONSTRAINT non_deferrable_unique_username UNIQUE (username))
    // The deferrable constraint is excluded by the candidate query; only
    // the non-deferrable one is offered.
    let cands = candidates(vec![index_row("non_deferrable_unique_username", "{username}", false)]);
    let schemas =
        vec![col("id", true), col("email", false), col("username", false), col("data", true)];
    let key = select_lookup_key(&cands, &schemas);
    assert_is_key(&key, &["username"]);
}

#[test]
fn candidate_rows_with_missing_cells_fall_back() {
    // A row with no name gets the placeholder; a row with no array reads as
    // one empty column name, which no published column matches.
    let rows = vec![IndexRow { index_name: None, columns: None, is_primary: None }];
    let cands = candidates_from_rows(&rows);
    assert_eq!(cands.len(), 1);
    assert_eq!(cands[0].name, "unnamed_index");
    assert_eq!(cands[0].columns, vec!["".to_string()]);
    assert!(!cands[0].is_primary);
    let schemas = vec![col("id", false)];
    let key = select_lookup_key(&cands, &schemas);
    assert_is_full_row(&key);
}

#[test]
fn candidate_array_parsing_trims_braces_and_spaces() {
    let rows = vec![index_row("ix", "{ first_name , last_name }", false)];
    let cands = candidates_from_rows(&rows);
    assert_eq!(cands[0].columns, vec!["first_name".to_string(), "last_name".to_string()]);
}

#[test]
fn selected_key_carries_the_index_name() {
    // CREATE TABLE t (id INT PRIMARY KEY, data TEXT)
    let cands = candidates(vec![index_row("t_pkey", "{id}", true)]);
    let schemas = vec![col("id", false), col("data", true)];
    match select_lookup_key(&cands, &schemas) {
        LookupKey::Key { name, columns } => {
            assert_eq!(name, "t_pkey");
            assert_eq!(columns, vec!["id".to_string()]);
        }
        LookupKey::FullRow => panic!("expected a key"),
    }
}
