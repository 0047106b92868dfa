use sqlparse::ast::{FieldName, ParseError, SqlType, StmntKind};
use sqlparse::builder::{
    parse_select_stmnt, unwrap_column_defs, unwrap_vec, ColumnDefOption,
};
use sqlparse::grammar::SQLParser;
use sqlparse::parse_sql;
use sqlparse::tokens::{flatten, Rule};

#[test]
fn unrecognized_leading_keyword() {
    let r = parse_sql("DELETE FROM foo");
    assert_eq!(r, Err(ParseError::UnrecognizedStatement));
}

#[test]
fn unknown_column_type_is_reported() {
    let r = parse_sql("CREATE TABLE foo { bar FLOAT }");
    assert_eq!(r, Err(ParseError::UnknownType("FLOAT".to_string())));
}

#[test]
fn zero_column_definitions_is_missing_field() {
    let r = parse_sql("CREATE TABLE foo { }");
    assert_eq!(
        r,
        Err(ParseError::MissingField(StmntKind::CreateTable, FieldName::ColumnDefs))
    );
}

#[test]
fn arity_mismatch_is_reported() {
    let r = parse_sql("INSERT INTO foo (a, b) VALUES (x)");
    assert_eq!(r, Err(ParseError::ArityMismatch(2, 1)));
}

#[test]
fn unbalanced_braces_are_a_syntax_error() {
    assert_eq!(parse_sql("CREATE TABLE foo {"), Err(ParseError::Syntax));
}

#[test]
fn empty_text_is_a_syntax_error() {
    assert_eq!(parse_sql(""), Err(ParseError::Syntax));
}

#[test]
fn disallowed_character_is_a_syntax_error() {
    assert_eq!(parse_sql("SELECT * FROM foo;"), Err(ParseError::Syntax));
}

#[test]
fn column_name_without_type_is_a_syntax_error() {
    assert_eq!(parse_sql("CREATE TABLE foo { bar }"), Err(ParseError::Syntax));
}

#[test]
fn sql_type_from_str_exact_match() {
    assert_eq!(SqlType::from_str("INT"), Ok(SqlType::Int));
    assert_eq!(SqlType::from_str("TEXT"), Ok(SqlType::Text));
    assert_eq!(
        SqlType::from_str("BLOB"),
        Err(ParseError::UnknownType("BLOB".to_string()))
    );
}

#[test]
fn tokenize_labels_the_statement() {
    let tree = SQLParser::tokenize("SELECT * FROM foo").expect("statement should tokenize");
    let tokens = flatten(&tree);
    let rules: Vec<Rule> = tokens.iter().map(|t| t.rule).collect();
    assert_eq!(
        rules,
        vec![Rule::SelectKw, Rule::Star, Rule::OtherKw, Rule::TableName]
    );
    assert_eq!(tokens[0].text, "SELECT");
    assert_eq!(tokens[1].text, "*");
    assert_eq!(tokens[3].text, "foo");
}

#[test]
fn empty_token_sequence_misses_the_table_name() {
    let r = parse_select_stmnt(&Vec::new());
    assert_eq!(
        r,
        Err(ParseError::MissingField(StmntKind::Select, FieldName::TableName))
    );
}

#[test]
fn unwrap_vec_reports_an_absent_element() {
    assert_eq!(unwrap_vec::<u32>(vec![Some(1), None]), None);
    assert_eq!(unwrap_vec::<u32>(vec![Some(1), Some(2)]), Some(vec![1, 2]));
    assert_eq!(unwrap_vec::<u32>(vec![]), Some(vec![]));
}

#[test]
fn unwrap_column_defs_names_the_missing_field() {
    let complete = ColumnDefOption {
        column_name: Some("a".to_string()),
        column_type: Some(SqlType::Int),
    };
    let untyped = ColumnDefOption { column_name: Some("b".to_string()), column_type: None };
    let r = unwrap_column_defs(vec![complete, untyped]);
    assert_eq!(
        r,
        Err(ParseError::MissingField(StmntKind::CreateTable, FieldName::ColumnType))
    );
    let unnamed = ColumnDefOption { column_name: None, column_type: Some(SqlType::Int) };
    let r = unwrap_column_defs(vec![unnamed]);
    assert_eq!(
        r,
        Err(ParseError::MissingField(StmntKind::CreateTable, FieldName::ColumnName))
    );
    let complete = ColumnDefOption {
        column_name: Some("a".to_string()),
        column_type: Some(SqlType::Int),
    };
    let r = unwrap_column_defs(vec![complete]).expect("complete definitions unwrap");
    assert_eq!(r.len(), 1);
    assert_eq!(r[0].column_name, "a");
    assert_eq!(r[0].column_type, SqlType::Int);
}
