//! The dispatcher: a scan of the flattened token sequence for the first
//! statement keyword decides which builder runs; a sequence with no statement
//! keyword is an unrecognized statement.
use vstd::prelude::*;

use crate::ast::{ErrorV, StmntV};
use crate::builder::{create_result, insert_result, select_result};
use crate::grammar::tokens_of_text;
use crate::tokens::{tokens_view, Rule, Token, TokenV};

verus! {

/// Whether a rule is one of the three statement keywords.
pub open spec fn is_stmnt_kw(r: Rule) -> bool {
    r == Rule::CreateKw || r == Rule::SelectKw || r == Rule::InsertKw
}

/// The first statement keyword at or after position `i`, if any.
pub open spec fn first_kw(toks: Seq<TokenV>, i: int) -> Option<Rule>
    decreases toks.len() - i,
        when 0 <= i <= toks.len()
{
    if i >= toks.len() {
        None
    } else if is_stmnt_kw(toks[i].rule) {
        Some(toks[i].rule)
    } else {
        first_kw(toks, i + 1)
    }
}

/// What parsing a flattened token sequence returns: the builder named by the
/// first statement keyword runs, and without one the statement is
/// unrecognized.
pub open spec fn parse_tokens(toks: Seq<TokenV>) -> Result<StmntV, ErrorV> {
    match first_kw(toks, 0) {
        Some(Rule::CreateKw) => match create_result(toks) {
            Ok(c) => Ok(StmntV::CreateTable(c)),
            Err(e) => Err(e),
        },
        Some(Rule::SelectKw) => match select_result(toks) {
            Ok(s) => Ok(StmntV::SelectStmnt(s)),
            Err(e) => Err(e),
        },
        Some(Rule::InsertKw) => match insert_result(toks) {
            Ok(s) => Ok(StmntV::InsertStmnt(s)),
            Err(e) => Err(e),
        },
        _ => Err(ErrorV::UnrecognizedStatement),
    }
}

/// What parsing a statement text returns, from tokenization to the finalized
/// record: the specification of the whole parse.
pub open spec fn parse_sql_spec(s: Seq<char>) -> Result<StmntV, ErrorV> {
    match tokens_of_text(s) {
        Some(toks) => parse_tokens(toks),
        None => Err(ErrorV::Syntax),
    }
}

/// Scans the flattened token sequence once for the first statement keyword.
pub fn first_kw_exec(tokens: &Vec<Token>) -> (r: Option<Rule>)
    ensures
        r == first_kw(tokens_view(tokens@), 0),
{
    let ghost tv = tokens_view(tokens@);
    let n = tokens.len();
    let mut i: usize = 0;
    while i < n
        invariant
            tv == tokens_view(tokens@),
            n == tokens@.len(),
            0 <= i <= n,
            first_kw(tv, 0) == first_kw(tv, i as int),
        decreases n - i,
    {
        proof {
            assert(tv[i as int] == tokens@[i as int]@);
        }
        let r = tokens[i].rule;
        match r {
            Rule::CreateKw => {
                return Some(r);
            },
            Rule::SelectKw => {
                return Some(r);
            },
            Rule::InsertKw => {
                return Some(r);
            },
            _ => {},
        }
        i += 1;
    }
    None
}

} // verus!
