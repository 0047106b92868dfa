//! The grammar engine: decides which lexeme sequences form a statement of the
//! dialect and labels each meaningful lexeme with its rule. The spec functions
//! here define the accepted grammar; `SQLParser` implements it, yielding a
//! token tree whose leaves are exactly the labeled tokens of the statement.
use vstd::prelude::*;

use crate::lexer::{
    lex, lexemes_view, scan, Lexeme, LexemeV,
};
use crate::tokens::{leaves_of, leaves_of_list, tok, Rule, Token, TokenTree, TokenV};
use crate::ast::{str_eq, ParseError, ErrorV};

verus! {

/// Prepends a finished token prefix to a labeling outcome.
pub open spec fn toks_prepend(pre: Seq<TokenV>, rest: Option<Seq<TokenV>>) -> Option<Seq<TokenV>> {
    match rest {
        Some(r) => Some(pre + r),
        None => None,
    }
}

/// Prepends a finished token prefix to a labeling outcome that also carries
/// the position where parsing continues.
pub open spec fn toks_prepend_at(pre: Seq<TokenV>, rest: Option<(Seq<TokenV>, int)>) -> Option<
    (Seq<TokenV>, int),
> {
    match rest {
        Some((toks, j)) => Some((pre + toks, j)),
        None => None,
    }
}

/// The column-definition group of a `CREATE TABLE` statement, from lexeme `i`
/// up to and including the closing brace: zero or more comma-separated pairs
/// of a column name and a column type. Returns the labeled tokens and the
/// position just past the brace.
pub open spec fn parse_col_defs(ls: Seq<LexemeV>, i: int) -> Option<(Seq<TokenV>, int)>
    decreases ls.len() - i,
        when 0 <= i <= ls.len()
{
    if i < ls.len() && ls[i] == LexemeV::Punct('}') {
        Some((Seq::empty(), i + 1))
    } else if i + 2 < ls.len() && ls[i] is Word && ls[i + 1] is Word {
        let pair = seq![
            tok(Rule::ColumnName, ls[i]->Word_0),
            tok(Rule::ColumnType, ls[i + 1]->Word_0),
        ];
        if ls[i + 2] == LexemeV::Punct('}') {
            Some((pair, i + 3))
        } else if ls[i + 2] == LexemeV::Punct(',') && i + 3 < ls.len() && ls[i + 3] is Word {
            toks_prepend_at(pair, parse_col_defs(ls, i + 3))
        } else {
            None
        }
    } else {
        None
    }
}

/// A parenthesized, comma-separated, non-empty list of words, from lexeme `i`
/// up to and including the closing parenthesis, each word labeled `rule`.
pub open spec fn parse_list(ls: Seq<LexemeV>, i: int, rule: Rule) -> Option<(Seq<TokenV>, int)>
    decreases ls.len() - i,
        when 0 <= i <= ls.len()
{
    if i + 1 < ls.len() && ls[i] is Word {
        if ls[i + 1] == LexemeV::Punct(')') {
            Some((seq![tok(rule, ls[i]->Word_0)], i + 2))
        } else if ls[i + 1] == LexemeV::Punct(',') && i + 2 < ls.len() && ls[i + 2] is Word {
            toks_prepend_at(seq![tok(rule, ls[i]->Word_0)], parse_list(ls, i + 2, rule))
        } else {
            None
        }
    } else {
        None
    }
}

/// A statement with no recognized leading keyword: every lexeme must be a
/// word, and each is labeled `OtherKw` so that no builder consumes it.
pub open spec fn parse_other(ls: Seq<LexemeV>, i: int) -> Option<Seq<TokenV>>
    decreases ls.len() - i,
        when 0 <= i <= ls.len()
{
    if i >= ls.len() {
        Some(Seq::empty())
    } else if ls[i] is Word {
        toks_prepend(seq![tok(Rule::OtherKw, ls[i]->Word_0)], parse_other(ls, i + 1))
    } else {
        None
    }
}

/// `CREATE TABLE <name> { <defs> }`, given that lexeme 0 is `CREATE`.
pub open spec fn parse_create_lexemes(ls: Seq<LexemeV>) -> Option<Seq<TokenV>> {
    if ls.len() >= 4 && ls[1] == LexemeV::Word("TABLE"@) && ls[2] is Word && ls[3]
        == LexemeV::Punct('{') {
        match parse_col_defs(ls, 4) {
            Some((cols, j)) => if j == ls.len() {
                Some(
                    seq![
                        tok(Rule::CreateKw, "CREATE"@),
                        tok(Rule::OtherKw, "TABLE"@),
                        tok(Rule::TableName, ls[2]->Word_0),
                    ] + cols,
                )
            } else {
                None
            },
            None => None,
        }
    } else {
        None
    }
}

/// `SELECT * FROM <name>`, given that lexeme 0 is `SELECT`.
pub open spec fn parse_select_lexemes(ls: Seq<LexemeV>) -> Option<Seq<TokenV>> {
    if ls.len() == 4 && ls[1] == LexemeV::Punct('*') && ls[2] == LexemeV::Word("FROM"@) && ls[3]
        is Word {
        Some(
            seq![
                tok(Rule::SelectKw, "SELECT"@),
                tok(Rule::Star, "*"@),
                tok(Rule::OtherKw, "FROM"@),
                tok(Rule::TableName, ls[3]->Word_0),
            ],
        )
    } else {
        None
    }
}

/// `INSERT INTO <name> (<columns>) VALUES (<values>)`, given that lexeme 0 is
/// `INSERT`.
pub open spec fn parse_insert_lexemes(ls: Seq<LexemeV>) -> Option<Seq<TokenV>> {
    if ls.len() >= 4 && ls[1] == LexemeV::Word("INTO"@) && ls[2] is Word && ls[3]
        == LexemeV::Punct('(') {
        match parse_list(ls, 4, Rule::ColumnName) {
            Some((cols, j)) => if 0 <= j && j + 1 < ls.len() && ls[j] == LexemeV::Word("VALUES"@)
                && ls[j + 1] == LexemeV::Punct('(') {
                match parse_list(ls, j + 2, Rule::Value) {
                    Some((vals, k)) => if k == ls.len() {
                        Some(
                            seq![
                                tok(Rule::InsertKw, "INSERT"@),
                                tok(Rule::OtherKw, "INTO"@),
                                tok(Rule::TableName, ls[2]->Word_0),
                            ] + cols + seq![tok(Rule::OtherKw, "VALUES"@)] + vals,
                        )
                    } else {
                        None
                    },
                    None => None,
                }
            } else {
                None
            },
            None => None,
        }
    } else {
        None
    }
}

/// The labeled tokens of a lexeme sequence: the statement form is chosen by
/// the first lexeme, and a leading word that is no recognized keyword leaves
/// every word unlabeled rather than failing.
pub open spec fn tokens_of_lexemes(ls: Seq<LexemeV>) -> Option<Seq<TokenV>> {
    if ls.len() == 0 {
        None
    } else if ls[0] == LexemeV::Word("CREATE"@) {
        parse_create_lexemes(ls)
    } else if ls[0] == LexemeV::Word("SELECT"@) {
        parse_select_lexemes(ls)
    } else if ls[0] == LexemeV::Word("INSERT"@) {
        parse_insert_lexemes(ls)
    } else if ls[0] is Word {
        parse_other(ls, 0)
    } else {
        None
    }
}

/// The labeled tokens of a statement text, or `None` where the grammar
/// rejects it.
pub open spec fn tokens_of_text(s: Seq<char>) -> Option<Seq<TokenV>> {
    match lex(s) {
        Some(ls) => tokens_of_lexemes(ls),
        None => None,
    }
}

/// The word at lexeme position `i`, if that lexeme is a word.
fn word_at<'a>(ls: &'a Vec<Lexeme>, i: usize) -> (r: Option<&'a String>)
    requires
        i < ls@.len(),
    ensures
        match r {
            Some(w) => ls@[i as int]@ == LexemeV::Word(w@),
            None => !(ls@[i as int]@ is Word),
        },
{
    match &ls[i] {
        Lexeme::Word(w) => Some(w),
        Lexeme::Punct(_) => None,
    }
}

/// Whether lexeme `i` is the punctuation mark `c`.
fn punct_at(ls: &Vec<Lexeme>, i: usize, c: char) -> (r: bool)
    requires
        i < ls@.len(),
    ensures
        r == (ls@[i as int]@ == LexemeV::Punct(c)),
{
    match &ls[i] {
        Lexeme::Punct(p) => *p == c,
        Lexeme::Word(_) => false,
    }
}

/// Whether lexeme `i` is exactly the word `kw`.
fn kw_at(ls: &Vec<Lexeme>, i: usize, kw: &str) -> (r: bool)
    requires
        i < ls@.len(),
    ensures
        r == (ls@[i as int]@ == LexemeV::Word(kw@)),
{
    match &ls[i] {
        Lexeme::Word(w) => str_eq(w.as_str(), kw),
        Lexeme::Punct(_) => false,
    }
}

/// A leaf carrying a copy of the given word.
fn leaf(rule: Rule, w: &String) -> (r: TokenTree)
    ensures
        leaves_of(r) == seq![tok(rule, w@)],
{
    let t = TokenTree::Leaf(Token { rule, text: w.clone() });
    proof {
        assert(leaves_of(t) =~= seq![tok(rule, w@)]);
    }
    t
}

/// One column definition: a name leaf and a type leaf under a grouping node.
fn def_node(name: &String, ty: &String) -> (r: TokenTree)
    ensures
        leaves_of(r) == seq![tok(Rule::ColumnName, name@), tok(Rule::ColumnType, ty@)],
{
    let a = leaf(Rule::ColumnName, name);
    let b = leaf(Rule::ColumnType, ty);
    let mut children: Vec<TokenTree> = Vec::new();
    children.push(a);
    children.push(b);
    let t = TokenTree::Node(children);
    proof {
        crate::tokens::lemma_leaves_list_push(Seq::<TokenTree>::empty(), a);
        crate::tokens::lemma_leaves_list_push(Seq::<TokenTree>::empty().push(a), b);
        assert(t->Node_0@ =~= Seq::<TokenTree>::empty().push(a).push(b));
        assert(leaves_of(t) =~= seq![tok(Rule::ColumnName, name@), tok(Rule::ColumnType, ty@)]);
    }
    t
}

/// Reads the column-definition group of a `CREATE TABLE` statement starting
/// at lexeme `start`, returning one grouping node per definition and the
/// position just past the closing brace.
fn parse_col_defs_exec(ls: &Vec<Lexeme>, start: usize) -> (r: Option<(Vec<TokenTree>, usize)>)
    requires
        start <= ls@.len(),
    ensures
        match r {
            Some(p) => parse_col_defs(lexemes_view(ls@), start as int) == Some(
                (leaves_of_list(p.0@), p.1 as int),
            ) && p.1 <= ls@.len(),
            None => parse_col_defs(lexemes_view(ls@), start as int) is None,
        },
{
    let ghost lv = lexemes_view(ls@);
    let n = ls.len();
    let mut defs: Vec<TokenTree> = Vec::new();
    let mut i: usize = start;
    proof {
        assert(leaves_of_list(defs@) =~= Seq::<TokenV>::empty());
    }
    loop
        invariant
            n == ls@.len(),
            lv == lexemes_view(ls@),
            start <= i <= n,
            parse_col_defs(lv, start as int) == toks_prepend_at(
                leaves_of_list(defs@),
                parse_col_defs(lv, i as int),
            ),
        decreases n - i,
    {
        proof {
            assert(forall|k: int| 0 <= k < n ==> lv[k] == ls@[k]@);
        }
        if i < n && punct_at(ls, i, '}') {
            proof {
                assert(parse_col_defs(lv, i as int) == Some((Seq::<TokenV>::empty(), i + 1)));
                assert(leaves_of_list(defs@) + Seq::<TokenV>::empty() =~= leaves_of_list(defs@));
            }
            return Some((defs, i + 1));
        } else if n - i >= 3 {
            let name = match word_at(ls, i) {
                Some(w) => w,
                None => {
                    proof {
                        assert(parse_col_defs(lv, i as int) is None);
                    }
                    return None;
                },
            };
            let ty = match word_at(ls, i + 1) {
                Some(w) => w,
                None => {
                    proof {
                        assert(parse_col_defs(lv, i as int) is None);
                    }
                    return None;
                },
            };
            let ghost pair = seq![
                tok(Rule::ColumnName, name@),
                tok(Rule::ColumnType, ty@),
            ];
            let def = def_node(name, ty);
            if punct_at(ls, i + 2, '}') {
                proof {
                    assert(parse_col_defs(lv, i as int) == Some((pair, i + 3)));
                    crate::tokens::lemma_leaves_list_push(defs@, def);
                    assert(leaves_of_list(defs@) + pair =~= leaves_of_list(defs@.push(def)));
                }
                defs.push(def);
                return Some((defs, i + 3));
            } else if punct_at(ls, i + 2, ',') && n - i >= 4 {
                if word_at(ls, i + 3).is_none() {
                    proof {
                        assert(parse_col_defs(lv, i as int) is None);
                    }
                    return None;
                }
                proof {
                    assert(parse_col_defs(lv, i as int) == toks_prepend_at(
                        pair,
                        parse_col_defs(lv, i + 3),
                    ));
                    crate::tokens::lemma_leaves_list_push(defs@, def);
                    assert(leaves_of_list(defs@.push(def)) =~= leaves_of_list(defs@) + pair);
                    match parse_col_defs(lv, i + 3) {
                        Some(p) => {
                            assert((leaves_of_list(defs@) + pair) + p.0 =~= leaves_of_list(defs@)
                                + (pair + p.0));
                        },
                        None => {},
                    }
                }
                defs.push(def);
                i = i + 3;
            } else {
                proof {
                    assert(parse_col_defs(lv, i as int) is None);
                }
                return None;
            }
        } else {
            proof {
                assert(parse_col_defs(lv, i as int) is None);
            }
            return None;
        }
    }
}

/// Reads a parenthesized word list starting at lexeme `start`, labeling each
/// word `rule`, and returns one leaf per word and the position just past the
/// closing parenthesis.
fn parse_list_exec(ls: &Vec<Lexeme>, start: usize, rule: Rule) -> (r: Option<
    (Vec<TokenTree>, usize),
>)
    requires
        start <= ls@.len(),
    ensures
        match r {
            Some(p) => parse_list(lexemes_view(ls@), start as int, rule) == Some(
                (leaves_of_list(p.0@), p.1 as int),
            ) && p.1 <= ls@.len(),
            None => parse_list(lexemes_view(ls@), start as int, rule) is None,
        },
{
    let ghost lv = lexemes_view(ls@);
    let n = ls.len();
    let mut items: Vec<TokenTree> = Vec::new();
    let mut i: usize = start;
    proof {
        assert(leaves_of_list(items@) =~= Seq::<TokenV>::empty());
    }
    loop
        invariant
            n == ls@.len(),
            lv == lexemes_view(ls@),
            start <= i <= n,
            parse_list(lv, start as int, rule) == toks_prepend_at(
                leaves_of_list(items@),
                parse_list(lv, i as int, rule),
            ),
        decreases n - i,
    {
        proof {
            assert(forall|k: int| 0 <= k < n ==> lv[k] == ls@[k]@);
        }
        if n - i >= 2 {
            let word = match word_at(ls, i) {
                Some(w) => w,
                None => {
                    proof {
                        assert(parse_list(lv, i as int, rule) is None);
                    }
                    return None;
                },
            };
            let ghost item = seq![tok(rule, word@)];
            let lf = leaf(rule, word);
            if punct_at(ls, i + 1, ')') {
                proof {
                    assert(parse_list(lv, i as int, rule) == Some((item, i + 2)));
                    crate::tokens::lemma_leaves_list_push(items@, lf);
                    assert(leaves_of_list(items@) + item =~= leaves_of_list(items@.push(lf)));
                }
                items.push(lf);
                return Some((items, i + 2));
            } else if punct_at(ls, i + 1, ',') && n - i >= 3 {
                if word_at(ls, i + 2).is_none() {
                    proof {
                        assert(parse_list(lv, i as int, rule) is None);
                    }
                    return None;
                }
                proof {
                    assert(parse_list(lv, i as int, rule) == toks_prepend_at(
                        item,
                        parse_list(lv, i + 2, rule),
                    ));
                    crate::tokens::lemma_leaves_list_push(items@, lf);
                    assert(leaves_of_list(items@.push(lf)) =~= leaves_of_list(items@) + item);
                    match parse_list(lv, i + 2, rule) {
                        Some(p) => {
                            assert((leaves_of_list(items@) + item) + p.0 =~= leaves_of_list(items@)
                                + (item + p.0));
                        },
                        None => {},
                    }
                }
                items.push(lf);
                i = i + 2;
            } else {
                proof {
                    assert(parse_list(lv, i as int, rule) is None);
                }
                return None;
            }
        } else {
            proof {
                assert(parse_list(lv, i as int, rule) is None);
            }
            return None;
        }
    }
}

/// Reads a statement of unlabeled words: every lexeme must be a word.
fn parse_other_exec(ls: &Vec<Lexeme>) -> (r: Option<TokenTree>)
    ensures
        match r {
            Some(t) => parse_other(lexemes_view(ls@), 0) == Some(leaves_of(t)),
            None => parse_other(lexemes_view(ls@), 0) is None,
        },
{
    let ghost lv = lexemes_view(ls@);
    let n = ls.len();
    let mut words: Vec<TokenTree> = Vec::new();
    let mut i: usize = 0;
    proof {
        assert(leaves_of_list(words@) =~= Seq::<TokenV>::empty());
    }
    while i < n
        invariant
            n == ls@.len(),
            lv == lexemes_view(ls@),
            0 <= i <= n,
            parse_other(lv, 0) == toks_prepend(leaves_of_list(words@), parse_other(lv, i as int)),
        decreases n - i,
    {
        proof {
            assert(forall|k: int| 0 <= k < n ==> lv[k] == ls@[k]@);
        }
        let word = match word_at(ls, i) {
            Some(w) => w,
            None => {
                proof {
                    assert(parse_other(lv, i as int) is None);
                }
                return None;
            },
        };
        let ghost item = seq![tok(Rule::OtherKw, word@)];
        let lf = leaf(Rule::OtherKw, word);
        proof {
            assert(parse_other(lv, i as int) == toks_prepend(item, parse_other(lv, i + 1)));
            crate::tokens::lemma_leaves_list_push(words@, lf);
            assert(leaves_of_list(words@.push(lf)) =~= leaves_of_list(words@) + item);
            match parse_other(lv, i + 1) {
                Some(rest) => {
                    assert((leaves_of_list(words@) + item) + rest =~= leaves_of_list(words@) + (item
                        + rest));
                },
                None => {},
            }
        }
        words.push(lf);
        i = i + 1;
    }
    proof {
        assert(parse_other(lv, i as int) == Some(Seq::<TokenV>::empty()));
        assert(leaves_of_list(words@) + Seq::<TokenV>::empty() =~= leaves_of_list(words@));
    }
    let t = TokenTree::Node(words);
    proof {
        assert(leaves_of(t) == leaves_of_list(t->Node_0@));
    }
    Some(t)
}

/// A leaf carrying the given literal text.
fn leaf_str(rule: Rule, w: &str) -> (r: TokenTree)
    ensures
        leaves_of(r) == seq![tok(rule, w@)],
{
    let t = TokenTree::Leaf(Token { rule, text: w.to_owned() });
    proof {
        assert(leaves_of(t) =~= seq![tok(rule, w@)]);
    }
    t
}

/// Parses a `CREATE TABLE` statement, lexeme 0 being `CREATE`.
fn parse_create_exec(ls: &Vec<Lexeme>) -> (r: Option<TokenTree>)
    ensures
        match r {
            Some(t) => parse_create_lexemes(lexemes_view(ls@)) == Some(leaves_of(t)),
            None => parse_create_lexemes(lexemes_view(ls@)) is None,
        },
{
    let ghost lv = lexemes_view(ls@);
    proof {
        assert(forall|k: int| 0 <= k < ls@.len() ==> lv[k] == ls@[k]@);
    }
    let n = ls.len();
    if n < 4 {
        return None;
    }
    if !kw_at(ls, 1, "TABLE") {
        return None;
    }
    let tname = match word_at(ls, 2) {
        Some(w) => w,
        None => {
            return None;
        },
    };
    if !punct_at(ls, 3, '{') {
        return None;
    }
    let (defs, j) = match parse_col_defs_exec(ls, 4) {
        Some(p) => p,
        None => {
            return None;
        },
    };
    if j != n {
        return None;
    }
    let ghost cols = leaves_of_list(defs@);
    let l0 = leaf_str(Rule::CreateKw, "CREATE");
    let l1 = leaf_str(Rule::OtherKw, "TABLE");
    let l2 = leaf(Rule::TableName, tname);
    let dn = TokenTree::Node(defs);
    let mut children: Vec<TokenTree> = Vec::new();
    proof {
        assert(leaves_of_list(children@) =~= Seq::<TokenV>::empty());
        crate::tokens::lemma_leaves_list_push(children@, l0);
    }
    children.push(l0);
    proof {
        crate::tokens::lemma_leaves_list_push(children@, l1);
    }
    children.push(l1);
    proof {
        crate::tokens::lemma_leaves_list_push(children@, l2);
    }
    children.push(l2);
    proof {
        crate::tokens::lemma_leaves_list_push(children@, dn);
    }
    children.push(dn);
    let t = TokenTree::Node(children);
    proof {
        assert(leaves_of(dn) == cols);
        assert(leaves_of(t) =~= seq![
            tok(Rule::CreateKw, "CREATE"@),
            tok(Rule::OtherKw, "TABLE"@),
            tok(Rule::TableName, tname@),
        ] + cols);
    }
    Some(t)
}

/// Parses a `SELECT * FROM` statement, lexeme 0 being `SELECT`.
fn parse_select_exec(ls: &Vec<Lexeme>) -> (r: Option<TokenTree>)
    ensures
        match r {
            Some(t) => parse_select_lexemes(lexemes_view(ls@)) == Some(leaves_of(t)),
            None => parse_select_lexemes(lexemes_view(ls@)) is None,
        },
{
    let ghost lv = lexemes_view(ls@);
    proof {
        assert(forall|k: int| 0 <= k < ls@.len() ==> lv[k] == ls@[k]@);
    }
    let n = ls.len();
    if n != 4 {
        return None;
    }
    if !punct_at(ls, 1, '*') {
        return None;
    }
    if !kw_at(ls, 2, "FROM") {
        return None;
    }
    let tname = match word_at(ls, 3) {
        Some(w) => w,
        None => {
            return None;
        },
    };
    let l0 = leaf_str(Rule::SelectKw, "SELECT");
    let l1 = leaf_str(Rule::Star, "*");
    let l2 = leaf_str(Rule::OtherKw, "FROM");
    let l3 = leaf(Rule::TableName, tname);
    let mut children: Vec<TokenTree> = Vec::new();
    proof {
        assert(leaves_of_list(children@) =~= Seq::<TokenV>::empty());
        crate::tokens::lemma_leaves_list_push(children@, l0);
    }
    children.push(l0);
    proof {
        crate::tokens::lemma_leaves_list_push(children@, l1);
    }
    children.push(l1);
    proof {
        crate::tokens::lemma_leaves_list_push(children@, l2);
    }
    children.push(l2);
    proof {
        crate::tokens::lemma_leaves_list_push(children@, l3);
    }
    children.push(l3);
    let t = TokenTree::Node(children);
    proof {
        assert(leaves_of(t) =~= seq![
            tok(Rule::SelectKw, "SELECT"@),
            tok(Rule::Star, "*"@),
            tok(Rule::OtherKw, "FROM"@),
            tok(Rule::TableName, tname@),
        ]);
    }
    Some(t)
}

/// Parses an `INSERT INTO` statement, lexeme 0 being `INSERT`.
fn parse_insert_exec(ls: &Vec<Lexeme>) -> (r: Option<TokenTree>)
    ensures
        match r {
            Some(t) => parse_insert_lexemes(lexemes_view(ls@)) == Some(leaves_of(t)),
            None => parse_insert_lexemes(lexemes_view(ls@)) is None,
        },
{
    let ghost lv = lexemes_view(ls@);
    proof {
        assert(forall|k: int| 0 <= k < ls@.len() ==> lv[k] == ls@[k]@);
    }
    let n = ls.len();
    if n < 4 {
        return None;
    }
    if !kw_at(ls, 1, "INTO") {
        return None;
    }
    let tname = match word_at(ls, 2) {
        Some(w) => w,
        None => {
            return None;
        },
    };
    if !punct_at(ls, 3, '(') {
        return None;
    }
    let (colitems, j) = match parse_list_exec(ls, 4, Rule::ColumnName) {
        Some(p) => p,
        None => {
            return None;
        },
    };
    let ghost cols = leaves_of_list(colitems@);
    if n - j < 2 {
        return None;
    }
    if !kw_at(ls, j, "VALUES") {
        return None;
    }
    if !punct_at(ls, j + 1, '(') {
        return None;
    }
    let (valitems, k) = match parse_list_exec(ls, j + 2, Rule::Value) {
        Some(p) => p,
        None => {
            return None;
        },
    };
    let ghost vals = leaves_of_list(valitems@);
    if k != n {
        return None;
    }
    let l0 = leaf_str(Rule::InsertKw, "INSERT");
    let l1 = leaf_str(Rule::OtherKw, "INTO");
    let l2 = leaf(Rule::TableName, tname);
    let cn = TokenTree::Node(colitems);
    let l4 = leaf_str(Rule::OtherKw, "VALUES");
    let vn = TokenTree::Node(valitems);
    let mut children: Vec<TokenTree> = Vec::new();
    proof {
        assert(leaves_of_list(children@) =~= Seq::<TokenV>::empty());
        crate::tokens::lemma_leaves_list_push(children@, l0);
    }
    children.push(l0);
    proof {
        crate::tokens::lemma_leaves_list_push(children@, l1);
    }
    children.push(l1);
    proof {
        crate::tokens::lemma_leaves_list_push(children@, l2);
    }
    children.push(l2);
    proof {
        crate::tokens::lemma_leaves_list_push(children@, cn);
    }
    children.push(cn);
    proof {
        crate::tokens::lemma_leaves_list_push(children@, l4);
    }
    children.push(l4);
    proof {
        crate::tokens::lemma_leaves_list_push(children@, vn);
    }
    children.push(vn);
    let t = TokenTree::Node(children);
    proof {
        assert(leaves_of(cn) == cols);
        assert(leaves_of(vn) == vals);
        assert(leaves_of(t) =~= seq![
            tok(Rule::InsertKw, "INSERT"@),
            tok(Rule::OtherKw, "INTO"@),
            tok(Rule::TableName, tname@),
        ] + cols + seq![tok(Rule::OtherKw, "VALUES"@)] + vals);
    }
    Some(t)
}

/// The grammar engine. Its one operation tokenizes a statement string
/// according to the fixed rules of the dialect.
pub struct SQLParser;

impl SQLParser {
    /// Tokenizes one statement string into a labeled token tree, or reports a
    /// syntax error exactly where the grammar rejects the text.
    pub fn tokenize(stmnt: &str) -> (r: Result<TokenTree, ParseError>)
        ensures
            match r {
                Ok(t) => tokens_of_text(stmnt@) == Some(leaves_of(t)),
                Err(e) => tokens_of_text(stmnt@) is None && e@ == ErrorV::Syntax,
            },
    {
        let ls = match scan(stmnt) {
            Some(ls) => ls,
            None => {
                return Err(ParseError::Syntax);
            },
        };
        let ghost lv = lexemes_view(ls@);
        if ls.len() == 0 {
            return Err(ParseError::Syntax);
        }
        let r = if kw_at(&ls, 0, "CREATE") {
            parse_create_exec(&ls)
        } else if kw_at(&ls, 0, "SELECT") {
            parse_select_exec(&ls)
        } else if kw_at(&ls, 0, "INSERT") {
            parse_insert_exec(&ls)
        } else if word_at(&ls, 0).is_some() {
            parse_other_exec(&ls)
        } else {
            None
        };
        proof {
            assert(lv.len() == ls@.len());
            assert(lv[0] == ls@[0]@);
        }
        match r {
            Some(t) => Ok(t),
            None => Err(ParseError::Syntax),
        }
    }
}

} // verus!
