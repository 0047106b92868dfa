//! A parser for a small SQL dialect. One statement string is tokenized by a
//! hand-written grammar engine into a labeled token tree, the tree is
//! flattened to a linear token sequence, and the builder for the statement
//! kind named by the leading keyword accumulates the sequence into a typed
//! record. Three statement forms are recognized: `CREATE TABLE`,
//! `SELECT * FROM`, and `INSERT INTO`.
pub mod ast;
pub mod lexer;
pub mod tokens;
pub mod grammar;
pub mod builder;
pub mod dispatch;
pub mod laws;

use vstd::prelude::*;

use crate::ast::{result_view, ParseError, ParsedStmnt};
use crate::builder::{parse_create_table_stmnt, parse_insert_stmnt, parse_select_stmnt};
use crate::dispatch::{first_kw_exec, parse_sql_spec};
use crate::grammar::SQLParser;
use crate::tokens::{flatten, Rule};

verus! {

/// Parses one statement string: tokenize, flatten, dispatch on the first
/// statement keyword, build and finalize. Returns the tagged statement record
/// or the error that stopped the parse, exactly as `parse_sql_spec` says.
pub fn parse_sql(stmnt: &str) -> (r: Result<ParsedStmnt, ParseError>)
    ensures
        result_view(r) == parse_sql_spec(stmnt@),
{
    let tree = match SQLParser::tokenize(stmnt) {
        Ok(t) => t,
        Err(e) => {
            return Err(e);
        },
    };
    let tokens = flatten(&tree);
    match first_kw_exec(&tokens) {
        Some(Rule::CreateKw) => match parse_create_table_stmnt(&tokens) {
            Ok(c) => Ok(ParsedStmnt::CreateTable(c)),
            Err(e) => Err(e),
        },
        Some(Rule::SelectKw) => match parse_select_stmnt(&tokens) {
            Ok(s) => Ok(ParsedStmnt::SelectStmnt(s)),
            Err(e) => Err(e),
        },
        Some(Rule::InsertKw) => match parse_insert_stmnt(&tokens) {
            Ok(s) => Ok(ParsedStmnt::InsertStmnt(s)),
            Err(e) => Err(e),
        },
        _ => Err(ParseError::UnrecognizedStatement),
    }
}

} // verus!
