use sqlparse::ast::{ParsedStmnt, SqlType};
use sqlparse::parse_sql;

#[test]
fn test_parse_create_table() {
    let stmnt = "CREATE TABLE foo { bar INT , baz TEXT  }";
    if let Ok(ParsedStmnt::CreateTable(res)) = parse_sql(stmnt) {
        assert_eq!(res.table_name, "foo");
        assert_eq!(res.column_defs[0].column_name, "bar");
        assert_eq!(res.column_defs[0].column_type, SqlType::Int);
        assert_eq!(res.column_defs[1].column_name, "baz");
        assert_eq!(res.column_defs[1].column_type, SqlType::Text);
    } else {
        panic!("expected a create-table statement");
    }
}

#[test]
fn test_parse_select_stmnt() {
    let stmnt = "SELECT * FROM foo";
    if let Ok(ParsedStmnt::SelectStmnt(res)) = parse_sql(stmnt) {
        assert_eq!(res.table_name, "foo");
        assert_eq!(res.select_columns, "*");
    } else {
        panic!("expected a select statement");
    }
}

#[test]
fn test_parse_insert_stmnt() {
    let stmnt = "INSERT INTO foo (cola, colb, colc) VALUES (v1, v2, v3)";
    if let Ok(ParsedStmnt::InsertStmnt(res)) = parse_sql(stmnt) {
        assert_eq!(res.table_name, "foo");
        assert_eq!(res.columns[0], "cola");
        assert_eq!(res.columns[1], "colb");
        assert_eq!(res.columns[2], "colc");
        assert_eq!(res.values[0], "v1");
        assert_eq!(res.values[1], "v2");
        assert_eq!(res.values[2], "v3");
    } else {
        panic!("expected an insert statement");
    }
}

#[test]
fn create_table_single_space_literal() {
    let stmnt = "CREATE TABLE foo { bar INT , baz TEXT }";
    if let Ok(ParsedStmnt::CreateTable(res)) = parse_sql(stmnt) {
        assert_eq!(res.table_name, "foo");
        assert_eq!(res.column_defs.len(), 2);
        assert_eq!(res.column_defs[0].column_name, "bar");
        assert_eq!(res.column_defs[0].column_type, SqlType::Int);
        assert_eq!(res.column_defs[1].column_name, "baz");
        assert_eq!(res.column_defs[1].column_type, SqlType::Text);
    } else {
        panic!("expected a create-table statement");
    }
}

#[test]
fn create_table_one_column() {
    let stmnt = "CREATE TABLE t { c TEXT }";
    if let Ok(ParsedStmnt::CreateTable(res)) = parse_sql(stmnt) {
        assert_eq!(res.table_name, "t");
        assert_eq!(res.column_defs.len(), 1);
        assert_eq!(res.column_defs[0].column_name, "c");
        assert_eq!(res.column_defs[0].column_type, SqlType::Text);
    } else {
        panic!("expected a create-table statement");
    }
}

#[test]
fn reparsing_yields_equal_records() {
    let stmnt = "INSERT INTO foo (cola, colb, colc) VALUES (v1, v2, v3)";
    let first = parse_sql(stmnt);
    let second = parse_sql(stmnt);
    assert_eq!(first, second);
    let stmnt = "CREATE TABLE foo { bar INT , baz TEXT }";
    let first = parse_sql(stmnt);
    let second = parse_sql(stmnt);
    assert_eq!(first, second);
}

#[test]
fn whitespace_between_lexemes_is_insignificant() {
    let spaced = parse_sql("SELECT\t*\nFROM   foo");
    let plain = parse_sql("SELECT * FROM foo");
    assert_eq!(spaced, plain);
}

#[test]
fn values_stay_raw_text() {
    let stmnt = "INSERT INTO nums (n) VALUES (42)";
    if let Ok(ParsedStmnt::InsertStmnt(res)) = parse_sql(stmnt) {
        assert_eq!(res.columns, vec!["n".to_string()]);
        assert_eq!(res.values, vec!["42".to_string()]);
    } else {
        panic!("expected an insert statement");
    }
}
