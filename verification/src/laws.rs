//! The laws of the parser, stated over whole statement texts and proved from
//! the contracts of the lexer, the grammar, the builders and the finalizers:
//! what every well-formed statement of each of the three forms parses to, how
//! each rejected text fails, and that parsing is a pure function of its input.
use vstd::prelude::*;

use crate::ast::{ColumnDefV, CreateTableV, ErrorV, FieldName, SelectStmntV, SqlType, StmntKind,
    StmntV, InsertStmntV};
use crate::dispatch::{first_kw, parse_sql_spec, parse_tokens};
use crate::grammar::{parse_other, tokens_of_lexemes, tokens_of_text};
use crate::lexer::{
    is_word, is_word_char, is_ws_char, lex, lex_cons, lex_from, lemma_word_end_is, LexemeV,
};
use crate::tokens::{tok, Rule, TokenV};

verus! {

/// A word lexeme stands at position `i` of the text, ended by a non-word
/// character or the end of text.
pub proof fn lemma_lex_word_at(s: Seq<char>, i: int, w: Seq<char>)
    requires
        0 <= i,
        i + w.len() <= s.len(),
        is_word(w),
        forall|k: int| 0 <= k < w.len() ==> s[i + k] == w[k],
        i + w.len() == s.len() || !is_word_char(s[i + w.len()]),
    ensures
        lex_from(s, i) == lex_cons(LexemeV::Word(w), lex_from(s, i + w.len())),
{
    assert(s.subrange(i, i + w.len()) =~= w);
    assert forall|k: int| i <= k < i + w.len() implies is_word_char(s[k]) by {
        assert(s[k] == w[k - i]);
    }
    assert(is_word_char(s[i]));
    assert(!is_ws_char(s[i]) && !crate::lexer::is_punct_char(s[i]));
    lemma_word_end_is(s, i, i + w.len());
}

/// A punctuation lexeme stands at position `i` of the text.
pub proof fn lemma_lex_punct_at(s: Seq<char>, i: int)
    requires
        0 <= i < s.len(),
        crate::lexer::is_punct_char(s[i]),
    ensures
        lex_from(s, i) == lex_cons(LexemeV::Punct(s[i]), lex_from(s, i + 1)),
{
}

/// Whitespace at position `i` of the text separates and is skipped.
pub proof fn lemma_lex_ws_at(s: Seq<char>, i: int)
    requires
        0 <= i < s.len(),
        is_ws_char(s[i]),
    ensures
        lex_from(s, i) == lex_from(s, i + 1),
{
}

/// The canonical text of a `SELECT * FROM <t>` statement.
pub open spec fn select_text(t: Seq<char>) -> Seq<char> {
    "SELECT * FROM "@ + t
}

/// The lexemes of a canonical select text.
pub proof fn lemma_lex_select(t: Seq<char>)
    requires
        is_word(t),
    ensures
        lex(select_text(t)) == Some(
            seq![
                LexemeV::Word("SELECT"@),
                LexemeV::Punct('*'),
                LexemeV::Word("FROM"@),
                LexemeV::Word(t),
            ],
        ),
{
    reveal_strlit("SELECT * FROM ");
    reveal_strlit("SELECT");
    reveal_strlit("FROM");
    let s = select_text(t);
    let p = "SELECT * FROM "@;
    assert(p.len() == 14);
    let n = s.len() as int;
    assert(n == 14 + t.len());
    assert forall|k: int| 0 <= k < 14 implies s[k] == p[k] by {}
    assert forall|k: int| 0 <= k < t.len() implies s[14 + k] == t[k] by {}
    assert forall|k: int| 0 <= k < 6 implies s[k] == "SELECT"@[k] by {}
    lemma_lex_word_at(s, 0, "SELECT"@);
    lemma_lex_ws_at(s, 6);
    lemma_lex_punct_at(s, 7);
    lemma_lex_ws_at(s, 8);
    assert forall|k: int| 0 <= k < 4 implies s[9 + k] == "FROM"@[k] by {}
    lemma_lex_word_at(s, 9, "FROM"@);
    lemma_lex_ws_at(s, 13);
    lemma_lex_word_at(s, 14, t);
    assert(lex_from(s, n) == Some(Seq::<LexemeV>::empty()));
    assert(lex(s) == Some(
        seq![LexemeV::Word("SELECT"@)] + (seq![LexemeV::Punct('*')] + (seq![
            LexemeV::Word("FROM"@),
        ] + (seq![LexemeV::Word(t)] + Seq::<LexemeV>::empty()))),
    ));
    assert(seq![LexemeV::Word("SELECT"@)] + (seq![LexemeV::Punct('*')] + (seq![
        LexemeV::Word("FROM"@),
    ] + (seq![LexemeV::Word(t)] + Seq::<LexemeV>::empty()))) =~= seq![
        LexemeV::Word("SELECT"@),
        LexemeV::Punct('*'),
        LexemeV::Word("FROM"@),
        LexemeV::Word(t),
    ]);
}

/// Every well-formed `SELECT * FROM <t>` text parses to a select record whose
/// table name is `<t>` and whose selected columns are the wildcard marker.
pub proof fn law_select_parses(t: Seq<char>)
    requires
        is_word(t),
    ensures
        parse_sql_spec(select_text(t)) == Ok::<StmntV, ErrorV>(
            StmntV::SelectStmnt(SelectStmntV { table_name: t, select_columns: "*"@ }),
        ),
{
    reveal_strlit("SELECT");
    reveal_strlit("CREATE");
    reveal_strlit("INSERT");
    reveal_strlit("FROM");
    reveal_strlit("*");
    lemma_lex_select(t);
    let s = select_text(t);
    let ls = seq![
        LexemeV::Word("SELECT"@),
        LexemeV::Punct('*'),
        LexemeV::Word("FROM"@),
        LexemeV::Word(t),
    ];
    assert("CREATE"@.len() == 6 && "SELECT"@.len() == 6 && "INSERT"@.len() == 6);
    assert("SELECT"@ != "CREATE"@) by {
        assert("SELECT"@[0] == 'S' && "CREATE"@[0] == 'C');
    }
    assert("SELECT"@ != "INSERT"@) by {
        assert("SELECT"@[0] == 'S' && "INSERT"@[0] == 'I');
    }
    let toks = seq![
        tok(Rule::SelectKw, "SELECT"@),
        tok(Rule::Star, "*"@),
        tok(Rule::OtherKw, "FROM"@),
        tok(Rule::TableName, t),
    ];
    assert("*"@ =~= seq!['*']);
    assert(tokens_of_lexemes(ls) == Some(toks));
    assert(tokens_of_text(s) == Some(toks));
    assert(first_kw(toks, 0) == Some(Rule::SelectKw));
    let st0 = crate::builder::select_init();
    let st1 = crate::builder::select_step(st0, toks[0]);
    let st2 = crate::builder::select_step(st1, toks[1]);
    let st3 = crate::builder::select_step(st2, toks[2]);
    let st4 = crate::builder::select_step(st3, toks[3]);
    assert(toks.take(1).drop_last() =~= toks.take(0));
    assert(toks.take(2).drop_last() =~= toks.take(1));
    assert(toks.take(3).drop_last() =~= toks.take(2));
    assert(toks.take(4).drop_last() =~= toks.take(3));
    assert(toks.take(0) =~= Seq::<TokenV>::empty());
    assert(toks.take(4) =~= toks);
    assert(crate::builder::build_select(toks.take(0)) == st0);
    assert(crate::builder::build_select(toks.take(1)) == st1);
    assert(crate::builder::build_select(toks.take(2)) == st2);
    assert(crate::builder::build_select(toks.take(3)) == st3);
    assert(crate::builder::build_select(toks) == st4);
    assert(st4.table_name == Some(t));
    assert(st4.select_columns == Some("*"@));
}

/// Each type keyword is a word of the lexical alphabet.
pub proof fn lemma_keyword_is_word(y: SqlType)
    ensures
        is_word(y.keyword()),
{
    reveal_strlit("INT");
    reveal_strlit("TEXT");
    match y {
        SqlType::Int => {
            assert forall|k: int| 0 <= k < "INT"@.len() implies is_word_char("INT"@[k]) by {
                assert("INT"@.len() == 3);
            }
        },
        SqlType::Text => {
            assert forall|k: int| 0 <= k < "TEXT"@.len() implies is_word_char("TEXT"@[k]) by {
                assert("TEXT"@.len() == 4);
            }
        },
    }
}

/// Reading back the keyword of a type yields that type.
pub proof fn lemma_from_keyword(y: SqlType)
    ensures
        SqlType::from_keyword(y.keyword()) == Ok::<SqlType, ErrorV>(y),
{
    reveal_strlit("INT");
    reveal_strlit("TEXT");
    match y {
        SqlType::Int => {},
        SqlType::Text => {
            assert("TEXT"@ != "INT"@) by {
                assert("TEXT"@.len() == 4 && "INT"@.len() == 3);
            }
        },
    }
}

/// The canonical text of a two-column `CREATE TABLE` statement; the column
/// types stand as arbitrary words.
pub open spec fn create_text2(
    t: Seq<char>,
    c1: Seq<char>,
    w1: Seq<char>,
    c2: Seq<char>,
    w2: Seq<char>,
) -> Seq<char> {
    "CREATE TABLE "@ + t + " { "@ + c1 + " "@ + w1 + " , "@ + c2 + " "@ + w2 + " }"@
}

/// The labeled tokens of a canonical two-column create text.
pub proof fn lemma_tokens_create2(
    t: Seq<char>,
    c1: Seq<char>,
    w1: Seq<char>,
    c2: Seq<char>,
    w2: Seq<char>,
)
    requires
        is_word(t),
        is_word(c1),
        is_word(w1),
        is_word(c2),
        is_word(w2),
    ensures
        tokens_of_text(create_text2(t, c1, w1, c2, w2)) == Some(
            seq![
                tok(Rule::CreateKw, "CREATE"@),
                tok(Rule::OtherKw, "TABLE"@),
                tok(Rule::TableName, t),
                tok(Rule::ColumnName, c1),
                tok(Rule::ColumnType, w1),
                tok(Rule::ColumnName, c2),
                tok(Rule::ColumnType, w2),
            ],
        ),
{
    reveal_strlit("CREATE TABLE ");
    reveal_strlit(" { ");
    reveal_strlit(" ");
    reveal_strlit(" , ");
    reveal_strlit(" }");
    reveal_strlit("CREATE");
    reveal_strlit("TABLE");
    let s = create_text2(t, c1, w1, c2, w2);
    let tl = t.len() as int;
    let c1l = c1.len() as int;
    let w1l = w1.len() as int;
    let c2l = c2.len() as int;
    let w2l = w2.len() as int;
    let a = 17 + tl + c1l + w1l;
    let b = 20 + tl + c1l + w1l;
    let d = 21 + tl + c1l + w1l + c2l;
    let e = d + w2l;
    let n = s.len() as int;
    assert(n == e + 2);
    assert forall|k: int| 0 <= k < 13 implies s[k] == "CREATE TABLE "@[k] by {}
    assert forall|k: int| 0 <= k < tl implies s[13 + k] == t[k] by {}
    assert forall|k: int| 0 <= k < 3 implies s[13 + tl + k] == " { "@[k] by {}
    assert forall|k: int| 0 <= k < c1l implies s[16 + tl + k] == c1[k] by {}
    assert(s[16 + tl + c1l] == ' ');
    assert forall|k: int| 0 <= k < w1l implies s[17 + tl + c1l + k] == w1[k] by {}
    assert forall|k: int| 0 <= k < 3 implies s[a + k] == " , "@[k] by {}
    assert forall|k: int| 0 <= k < c2l implies s[b + k] == c2[k] by {}
    assert(s[b + c2l] == ' ');
    assert forall|k: int| 0 <= k < w2l implies s[d + k] == w2[k] by {}
    assert(s[e] == ' ' && s[e + 1] == '}');
    assert forall|k: int| 0 <= k < 6 implies s[k] == "CREATE"@[k] by {}
    assert forall|k: int| 0 <= k < 5 implies s[7 + k] == "TABLE"@[k] by {}
    lemma_lex_word_at(s, 0, "CREATE"@);
    lemma_lex_ws_at(s, 6);
    lemma_lex_word_at(s, 7, "TABLE"@);
    lemma_lex_ws_at(s, 12);
    lemma_lex_word_at(s, 13, t);
    lemma_lex_ws_at(s, 13 + tl);
    lemma_lex_punct_at(s, 14 + tl);
    lemma_lex_ws_at(s, 15 + tl);
    lemma_lex_word_at(s, 16 + tl, c1);
    lemma_lex_ws_at(s, 16 + tl + c1l);
    lemma_lex_word_at(s, 17 + tl + c1l, w1);
    lemma_lex_ws_at(s, a);
    lemma_lex_punct_at(s, a + 1);
    lemma_lex_ws_at(s, a + 2);
    lemma_lex_word_at(s, b, c2);
    lemma_lex_ws_at(s, b + c2l);
    lemma_lex_word_at(s, d, w2);
    lemma_lex_ws_at(s, e);
    lemma_lex_punct_at(s, e + 1);
    assert(lex_from(s, n) == Some(Seq::<LexemeV>::empty()));
    let ls = seq![
        LexemeV::Word("CREATE"@),
        LexemeV::Word("TABLE"@),
        LexemeV::Word(t),
        LexemeV::Punct('{'),
        LexemeV::Word(c1),
        LexemeV::Word(w1),
        LexemeV::Punct(','),
        LexemeV::Word(c2),
        LexemeV::Word(w2),
        LexemeV::Punct('}'),
    ];
    assert(lex(s) == Some(
        seq![LexemeV::Word("CREATE"@)] + (seq![LexemeV::Word("TABLE"@)] + (seq![LexemeV::Word(t)]
            + (seq![LexemeV::Punct('{')] + (seq![LexemeV::Word(c1)] + (seq![LexemeV::Word(w1)]
            + (seq![LexemeV::Punct(',')] + (seq![LexemeV::Word(c2)] + (seq![LexemeV::Word(w2)]
            + (seq![LexemeV::Punct('}')] + Seq::<LexemeV>::empty()))))))))),
    ));
    assert(seq![LexemeV::Word("CREATE"@)] + (seq![LexemeV::Word("TABLE"@)] + (seq![
        LexemeV::Word(t),
    ] + (seq![LexemeV::Punct('{')] + (seq![LexemeV::Word(c1)] + (seq![LexemeV::Word(w1)] + (seq![
        LexemeV::Punct(','),
    ] + (seq![LexemeV::Word(c2)] + (seq![LexemeV::Word(w2)] + (seq![LexemeV::Punct('}')]
        + Seq::<LexemeV>::empty()))))))))) =~= ls);
    let pair1 = seq![tok(Rule::ColumnName, c1), tok(Rule::ColumnType, w1)];
    let pair2 = seq![tok(Rule::ColumnName, c2), tok(Rule::ColumnType, w2)];
    assert(crate::grammar::parse_col_defs(ls, 7) == Some::<(Seq<TokenV>, int)>((pair2, 10)));
    assert(crate::grammar::parse_col_defs(ls, 4) == Some::<(Seq<TokenV>, int)>((pair1 + pair2, 10)));
    let head = seq![
        tok(Rule::CreateKw, "CREATE"@),
        tok(Rule::OtherKw, "TABLE"@),
        tok(Rule::TableName, t),
    ];
    assert(crate::grammar::parse_create_lexemes(ls) == Some(head + (pair1 + pair2)));
    assert(head + (pair1 + pair2) =~= seq![
        tok(Rule::CreateKw, "CREATE"@),
        tok(Rule::OtherKw, "TABLE"@),
        tok(Rule::TableName, t),
        tok(Rule::ColumnName, c1),
        tok(Rule::ColumnType, w1),
        tok(Rule::ColumnName, c2),
        tok(Rule::ColumnType, w2),
    ]);
    assert(tokens_of_lexemes(ls) == crate::grammar::parse_create_lexemes(ls));
}

/// Every well-formed two-column `CREATE TABLE` text parses to a create-table
/// record whose table name is `<t>` and whose column definitions are exactly
/// the two given pairs, in order.
pub proof fn law_create_two_columns(
    t: Seq<char>,
    c1: Seq<char>,
    y1: SqlType,
    c2: Seq<char>,
    y2: SqlType,
)
    requires
        is_word(t),
        is_word(c1),
        is_word(c2),
    ensures
        parse_sql_spec(create_text2(t, c1, y1.keyword(), c2, y2.keyword())) == Ok::<
            StmntV,
            ErrorV,
        >(
            StmntV::CreateTable(
                CreateTableV {
                    table_name: t,
                    column_defs: seq![
                        ColumnDefV { column_name: c1, column_type: y1 },
                        ColumnDefV { column_name: c2, column_type: y2 },
                    ],
                },
            ),
        ),
{
    lemma_keyword_is_word(y1);
    lemma_keyword_is_word(y2);
    lemma_tokens_create2(t, c1, y1.keyword(), c2, y2.keyword());
    lemma_from_keyword(y1);
    lemma_from_keyword(y2);
    let toks = seq![
        tok(Rule::CreateKw, "CREATE"@),
        tok(Rule::OtherKw, "TABLE"@),
        tok(Rule::TableName, t),
        tok(Rule::ColumnName, c1),
        tok(Rule::ColumnType, y1.keyword()),
        tok(Rule::ColumnName, c2),
        tok(Rule::ColumnType, y2.keyword()),
    ];
    assert(first_kw(toks, 0) == Some(Rule::CreateKw));
    let st0 = crate::builder::create_init();
    let r1 = crate::builder::create_step(st0, toks[0]);
    let st1 = r1->Ok_0;
    let r2 = crate::builder::create_step(st1, toks[1]);
    let st2 = r2->Ok_0;
    let r3 = crate::builder::create_step(st2, toks[2]);
    let st3 = r3->Ok_0;
    let r4 = crate::builder::create_step(st3, toks[3]);
    let st4 = r4->Ok_0;
    let r5 = crate::builder::create_step(st4, toks[4]);
    let st5 = r5->Ok_0;
    let r6 = crate::builder::create_step(st5, toks[5]);
    let st6 = r6->Ok_0;
    let r7 = crate::builder::create_step(st6, toks[6]);
    let st7 = r7->Ok_0;
    let slot1 = crate::builder::ColumnDefOptionV { column_name: Some(c1), column_type: None };
    let def1 = crate::builder::ColumnDefOptionV {
        column_name: Some(c1),
        column_type: Some(y1),
    };
    let slot2 = crate::builder::ColumnDefOptionV { column_name: Some(c2), column_type: None };
    let def2 = crate::builder::ColumnDefOptionV {
        column_name: Some(c2),
        column_type: Some(y2),
    };
    assert(r1 is Ok && st1 == st0);
    assert(r2 is Ok && st2 == st1);
    assert(r3 is Ok && st3.table_name == Some(t) && st3.column_defs == st2.column_defs);
    assert(r4 is Ok && st4.column_defs == st3.column_defs.push(slot1));
    assert(st4.column_defs =~= seq![slot1]);
    assert(st4.column_defs.last() == slot1);
    assert(r5 is Ok && st5.column_defs == st4.column_defs.update(0, def1));
    assert(st5.column_defs =~= seq![def1]);
    assert(r6 is Ok && st6.column_defs == st5.column_defs.push(slot2));
    assert(st6.column_defs =~= seq![def1, slot2]);
    assert(st6.column_defs.last() == slot2);
    assert(r7 is Ok && st7.column_defs == st6.column_defs.update(1, def2));
    assert(st7.column_defs =~= seq![def1, def2]);
    assert(st7.table_name == Some(t));
    assert(toks.take(1).drop_last() =~= toks.take(0));
    assert(toks.take(2).drop_last() =~= toks.take(1));
    assert(toks.take(3).drop_last() =~= toks.take(2));
    assert(toks.take(4).drop_last() =~= toks.take(3));
    assert(toks.take(5).drop_last() =~= toks.take(4));
    assert(toks.take(6).drop_last() =~= toks.take(5));
    assert(toks.take(7).drop_last() =~= toks.take(6));
    assert(toks.take(0) =~= Seq::<TokenV>::empty());
    assert(toks.take(7) =~= toks);
    assert(crate::builder::build_create(toks.take(0)) == Ok::<_, ErrorV>(st0));
    assert(crate::builder::build_create(toks.take(1)) == r1);
    assert(crate::builder::build_create(toks.take(2)) == r2);
    assert(crate::builder::build_create(toks.take(3)) == r3);
    assert(crate::builder::build_create(toks.take(4)) == r4);
    assert(crate::builder::build_create(toks.take(5)) == r5);
    assert(crate::builder::build_create(toks.take(6)) == r6);
    assert(crate::builder::build_create(toks) == r7);
    let dv = st7.column_defs;
    let d1 = ColumnDefV { column_name: c1, column_type: y1 };
    let d2 = ColumnDefV { column_name: c2, column_type: y2 };
    assert(crate::builder::defs_complete_from(dv, 2) == Ok::<Seq<ColumnDefV>, FieldName>(
        Seq::empty(),
    ));
    assert(crate::builder::defs_complete_from(dv, 1) == Ok::<Seq<ColumnDefV>, FieldName>(
        seq![d2] + Seq::<ColumnDefV>::empty(),
    ));
    assert(seq![d2] + Seq::<ColumnDefV>::empty() =~= seq![d2]);
    assert(crate::builder::defs_complete_from(dv, 0) == Ok::<Seq<ColumnDefV>, FieldName>(
        seq![d1] + seq![d2],
    ));
    assert(seq![d1] + seq![d2] =~= seq![d1, d2]);
    assert(crate::builder::create_result(toks) == Ok::<CreateTableV, ErrorV>(
        CreateTableV { table_name: t, column_defs: seq![d1, d2] },
    ));
}

/// The canonical text of a one-column `CREATE TABLE` statement; the column
/// type stands as an arbitrary word.
pub open spec fn create_text1(t: Seq<char>, c: Seq<char>, w: Seq<char>) -> Seq<char> {
    "CREATE TABLE "@ + t + " { "@ + c + " "@ + w + " }"@
}

/// The labeled tokens of a canonical one-column create text.
pub proof fn lemma_tokens_create1(t: Seq<char>, c: Seq<char>, w: Seq<char>)
    requires
        is_word(t),
        is_word(c),
        is_word(w),
    ensures
        tokens_of_text(create_text1(t, c, w)) == Some(
            seq![
                tok(Rule::CreateKw, "CREATE"@),
                tok(Rule::OtherKw, "TABLE"@),
                tok(Rule::TableName, t),
                tok(Rule::ColumnName, c),
                tok(Rule::ColumnType, w),
            ],
        ),
{
    reveal_strlit("CREATE TABLE ");
    reveal_strlit(" { ");
    reveal_strlit(" ");
    reveal_strlit(" }");
    reveal_strlit("CREATE");
    reveal_strlit("TABLE");
    let s = create_text1(t, c, w);
    let tl = t.len() as int;
    let cl = c.len() as int;
    let wl = w.len() as int;
    let e = 17 + tl + cl + wl;
    let n = s.len() as int;
    assert(n == e + 2);
    assert forall|k: int| 0 <= k < 13 implies s[k] == "CREATE TABLE "@[k] by {}
    assert forall|k: int| 0 <= k < tl implies s[13 + k] == t[k] by {}
    assert forall|k: int| 0 <= k < 3 implies s[13 + tl + k] == " { "@[k] by {}
    assert forall|k: int| 0 <= k < cl implies s[16 + tl + k] == c[k] by {}
    assert(s[16 + tl + cl] == ' ');
    assert forall|k: int| 0 <= k < wl implies s[17 + tl + cl + k] == w[k] by {}
    assert(s[e] == ' ' && s[e + 1] == '}');
    assert forall|k: int| 0 <= k < 6 implies s[k] == "CREATE"@[k] by {}
    assert forall|k: int| 0 <= k < 5 implies s[7 + k] == "TABLE"@[k] by {}
    lemma_lex_word_at(s, 0, "CREATE"@);
    lemma_lex_ws_at(s, 6);
    lemma_lex_word_at(s, 7, "TABLE"@);
    lemma_lex_ws_at(s, 12);
    lemma_lex_word_at(s, 13, t);
    lemma_lex_ws_at(s, 13 + tl);
    lemma_lex_punct_at(s, 14 + tl);
    lemma_lex_ws_at(s, 15 + tl);
    lemma_lex_word_at(s, 16 + tl, c);
    lemma_lex_ws_at(s, 16 + tl + cl);
    lemma_lex_word_at(s, 17 + tl + cl, w);
    lemma_lex_ws_at(s, e);
    lemma_lex_punct_at(s, e + 1);
    assert(lex_from(s, n) == Some(Seq::<LexemeV>::empty()));
    let ls = seq![
        LexemeV::Word("CREATE"@),
        LexemeV::Word("TABLE"@),
        LexemeV::Word(t),
        LexemeV::Punct('{'),
        LexemeV::Word(c),
        LexemeV::Word(w),
        LexemeV::Punct('}'),
    ];
    assert(lex(s) == Some(
        seq![LexemeV::Word("CREATE"@)] + (seq![LexemeV::Word("TABLE"@)] + (seq![LexemeV::Word(t)]
            + (seq![LexemeV::Punct('{')] + (seq![LexemeV::Word(c)] + (seq![LexemeV::Word(w)]
            + (seq![LexemeV::Punct('}')] + Seq::<LexemeV>::empty())))))),
    ));
    assert(seq![LexemeV::Word("CREATE"@)] + (seq![LexemeV::Word("TABLE"@)] + (seq![
        LexemeV::Word(t),
    ] + (seq![LexemeV::Punct('{')] + (seq![LexemeV::Word(c)] + (seq![LexemeV::Word(w)] + (seq![
        LexemeV::Punct('}'),
    ] + Seq::<LexemeV>::empty())))))) =~= ls);
    let pair = seq![tok(Rule::ColumnName, c), tok(Rule::ColumnType, w)];
    assert(crate::grammar::parse_col_defs(ls, 4) == Some::<(Seq<TokenV>, int)>((pair, 7)));
    let head = seq![
        tok(Rule::CreateKw, "CREATE"@),
        tok(Rule::OtherKw, "TABLE"@),
        tok(Rule::TableName, t),
    ];
    assert(crate::grammar::parse_create_lexemes(ls) == Some(head + pair));
    assert(head + pair =~= seq![
        tok(Rule::CreateKw, "CREATE"@),
        tok(Rule::OtherKw, "TABLE"@),
        tok(Rule::TableName, t),
        tok(Rule::ColumnName, c),
        tok(Rule::ColumnType, w),
    ]);
    assert(tokens_of_lexemes(ls) == crate::grammar::parse_create_lexemes(ls));
}

/// The create-table builder state after the five tokens of a one-column
/// statement whose type word is `w`: the first four tokens accumulate the
/// table name and open the column slot, and the fifth resolves `w`.
proof fn lemma_build_create1(t: Seq<char>, c: Seq<char>, w: Seq<char>)
    ensures
        ({
            let toks = seq![
                tok(Rule::CreateKw, "CREATE"@),
                tok(Rule::OtherKw, "TABLE"@),
                tok(Rule::TableName, t),
                tok(Rule::ColumnName, c),
                tok(Rule::ColumnType, w),
            ];
            crate::builder::build_create(toks) == (match SqlType::from_keyword(w) {
                Ok(y) => Ok::<crate::builder::CreateTableOptionV, ErrorV>(
                    crate::builder::CreateTableOptionV {
                        table_name: Some(t),
                        column_defs: seq![
                            crate::builder::ColumnDefOptionV {
                                column_name: Some(c),
                                column_type: Some(y),
                            },
                        ],
                    },
                ),
                Err(e) => Err::<crate::builder::CreateTableOptionV, ErrorV>(e),
            })
        }),
{
    let toks = seq![
        tok(Rule::CreateKw, "CREATE"@),
        tok(Rule::OtherKw, "TABLE"@),
        tok(Rule::TableName, t),
        tok(Rule::ColumnName, c),
        tok(Rule::ColumnType, w),
    ];
    let st0 = crate::builder::create_init();
    let r1 = crate::builder::create_step(st0, toks[0]);
    let st1 = r1->Ok_0;
    let r2 = crate::builder::create_step(st1, toks[1]);
    let st2 = r2->Ok_0;
    let r3 = crate::builder::create_step(st2, toks[2]);
    let st3 = r3->Ok_0;
    let r4 = crate::builder::create_step(st3, toks[3]);
    let st4 = r4->Ok_0;
    let r5 = crate::builder::create_step(st4, toks[4]);
    let slot = crate::builder::ColumnDefOptionV { column_name: Some(c), column_type: None };
    assert(r1 is Ok && st1 == st0);
    assert(r2 is Ok && st2 == st1);
    assert(r3 is Ok && st3.table_name == Some(t) && st3.column_defs == st2.column_defs);
    assert(r4 is Ok && st4.column_defs == st3.column_defs.push(slot));
    assert(st4.column_defs =~= seq![slot]);
    assert(st4.column_defs.last() == slot);
    assert(toks.take(1).drop_last() =~= toks.take(0));
    assert(toks.take(2).drop_last() =~= toks.take(1));
    assert(toks.take(3).drop_last() =~= toks.take(2));
    assert(toks.take(4).drop_last() =~= toks.take(3));
    assert(toks.take(5).drop_last() =~= toks.take(4));
    assert(toks.take(0) =~= Seq::<TokenV>::empty());
    assert(toks.take(5) =~= toks);
    assert(crate::builder::build_create(toks.take(0)) == Ok::<_, ErrorV>(st0));
    assert(crate::builder::build_create(toks.take(1)) == r1);
    assert(crate::builder::build_create(toks.take(2)) == r2);
    assert(crate::builder::build_create(toks.take(3)) == r3);
    assert(crate::builder::build_create(toks.take(4)) == r4);
    assert(crate::builder::build_create(toks) == r5);
    match SqlType::from_keyword(w) {
        Ok(y) => {
            assert(r5 is Ok);
            assert(r5->Ok_0.column_defs == st4.column_defs.update(
                0,
                crate::builder::ColumnDefOptionV { column_name: Some(c), column_type: Some(y) },
            ));
            assert(r5->Ok_0.column_defs =~= seq![
                crate::builder::ColumnDefOptionV { column_name: Some(c), column_type: Some(y) },
            ]);
        },
        Err(_) => {},
    }
}

/// A `CREATE TABLE` with one column definition — the lower bound of the
/// repeating group — parses to a record with exactly that definition.
pub proof fn law_create_one_column(t: Seq<char>, c: Seq<char>, y: SqlType)
    requires
        is_word(t),
        is_word(c),
    ensures
        parse_sql_spec(create_text1(t, c, y.keyword())) == Ok::<StmntV, ErrorV>(
            StmntV::CreateTable(
                CreateTableV {
                    table_name: t,
                    column_defs: seq![ColumnDefV { column_name: c, column_type: y }],
                },
            ),
        ),
{
    lemma_keyword_is_word(y);
    lemma_tokens_create1(t, c, y.keyword());
    lemma_from_keyword(y);
    lemma_build_create1(t, c, y.keyword());
    let toks = seq![
        tok(Rule::CreateKw, "CREATE"@),
        tok(Rule::OtherKw, "TABLE"@),
        tok(Rule::TableName, t),
        tok(Rule::ColumnName, c),
        tok(Rule::ColumnType, y.keyword()),
    ];
    assert(first_kw(toks, 0) == Some(Rule::CreateKw));
    let d = ColumnDefV { column_name: c, column_type: y };
    let dv = seq![
        crate::builder::ColumnDefOptionV { column_name: Some(c), column_type: Some(y) },
    ];
    assert(crate::builder::defs_complete_from(dv, 1) == Ok::<Seq<ColumnDefV>, FieldName>(
        Seq::empty(),
    ));
    assert(crate::builder::defs_complete_from(dv, 0) == Ok::<Seq<ColumnDefV>, FieldName>(
        seq![d] + Seq::<ColumnDefV>::empty(),
    ));
    assert(seq![d] + Seq::<ColumnDefV>::empty() =~= seq![d]);
    assert(crate::builder::create_result(toks) == Ok::<CreateTableV, ErrorV>(
        CreateTableV { table_name: t, column_defs: seq![d] },
    ));
}

/// A `column_type` word that spells neither recognized type keyword is
/// reported as an unknown-type error carrying that word, never an abort.
pub proof fn law_unknown_type_reported(t: Seq<char>, c: Seq<char>, w: Seq<char>)
    requires
        is_word(t),
        is_word(c),
        is_word(w),
        w != "INT"@,
        w != "TEXT"@,
    ensures
        parse_sql_spec(create_text1(t, c, w)) == Err::<StmntV, ErrorV>(ErrorV::UnknownType(w)),
{
    lemma_tokens_create1(t, c, w);
    lemma_build_create1(t, c, w);
    let toks = seq![
        tok(Rule::CreateKw, "CREATE"@),
        tok(Rule::OtherKw, "TABLE"@),
        tok(Rule::TableName, t),
        tok(Rule::ColumnName, c),
        tok(Rule::ColumnType, w),
    ];
    assert(first_kw(toks, 0) == Some(Rule::CreateKw));
    assert(SqlType::from_keyword(w) == Err::<SqlType, ErrorV>(ErrorV::UnknownType(w)));
    assert(crate::builder::build_create(toks) == Err::<crate::builder::CreateTableOptionV, ErrorV>(
        ErrorV::UnknownType(w),
    ));
}

/// The canonical text of a `CREATE TABLE` statement with no column
/// definitions.
pub open spec fn create_text0(t: Seq<char>) -> Seq<char> {
    "CREATE TABLE "@ + t + " { }"@
}

/// A `CREATE TABLE` with zero column definitions tokenizes, but finalizing
/// reports the column-definition list as a missing field.
pub proof fn law_create_zero_columns(t: Seq<char>)
    requires
        is_word(t),
    ensures
        parse_sql_spec(create_text0(t)) == Err::<StmntV, ErrorV>(
            ErrorV::MissingField(StmntKind::CreateTable, FieldName::ColumnDefs),
        ),
{
    reveal_strlit("CREATE TABLE ");
    reveal_strlit(" { }");
    reveal_strlit("CREATE");
    reveal_strlit("TABLE");
    let s = create_text0(t);
    let tl = t.len() as int;
    let n = s.len() as int;
    assert(n == 17 + tl);
    assert forall|k: int| 0 <= k < 13 implies s[k] == "CREATE TABLE "@[k] by {}
    assert forall|k: int| 0 <= k < tl implies s[13 + k] == t[k] by {}
    assert forall|k: int| 0 <= k < 4 implies s[13 + tl + k] == " { }"@[k] by {}
    assert forall|k: int| 0 <= k < 6 implies s[k] == "CREATE"@[k] by {}
    assert forall|k: int| 0 <= k < 5 implies s[7 + k] == "TABLE"@[k] by {}
    lemma_lex_word_at(s, 0, "CREATE"@);
    lemma_lex_ws_at(s, 6);
    lemma_lex_word_at(s, 7, "TABLE"@);
    lemma_lex_ws_at(s, 12);
    lemma_lex_word_at(s, 13, t);
    lemma_lex_ws_at(s, 13 + tl);
    lemma_lex_punct_at(s, 14 + tl);
    lemma_lex_ws_at(s, 15 + tl);
    lemma_lex_punct_at(s, 16 + tl);
    assert(lex_from(s, n) == Some(Seq::<LexemeV>::empty()));
    let ls = seq![
        LexemeV::Word("CREATE"@),
        LexemeV::Word("TABLE"@),
        LexemeV::Word(t),
        LexemeV::Punct('{'),
        LexemeV::Punct('}'),
    ];
    assert(lex(s) == Some(
        seq![LexemeV::Word("CREATE"@)] + (seq![LexemeV::Word("TABLE"@)] + (seq![LexemeV::Word(t)]
            + (seq![LexemeV::Punct('{')] + (seq![LexemeV::Punct('}')]
            + Seq::<LexemeV>::empty())))),
    ));
    assert(seq![LexemeV::Word("CREATE"@)] + (seq![LexemeV::Word("TABLE"@)] + (seq![
        LexemeV::Word(t),
    ] + (seq![LexemeV::Punct('{')] + (seq![LexemeV::Punct('}')] + Seq::<LexemeV>::empty()))))
        =~= ls);
    assert(crate::grammar::parse_col_defs(ls, 4) == Some::<(Seq<TokenV>, int)>((
        Seq::empty(),
        5,
    )));
    let head = seq![
        tok(Rule::CreateKw, "CREATE"@),
        tok(Rule::OtherKw, "TABLE"@),
        tok(Rule::TableName, t),
    ];
    assert(crate::grammar::parse_create_lexemes(ls) == Some(head + Seq::<TokenV>::empty()));
    assert(head + Seq::<TokenV>::empty() =~= head);
    assert(tokens_of_lexemes(ls) == crate::grammar::parse_create_lexemes(ls));
    assert(tokens_of_text(s) == Some(head));
    assert(first_kw(head, 0) == Some(Rule::CreateKw));
    let st0 = crate::builder::create_init();
    let r1 = crate::builder::create_step(st0, head[0]);
    let st1 = r1->Ok_0;
    let r2 = crate::builder::create_step(st1, head[1]);
    let st2 = r2->Ok_0;
    let r3 = crate::builder::create_step(st2, head[2]);
    let st3 = r3->Ok_0;
    assert(r1 is Ok && st1 == st0);
    assert(r2 is Ok && st2 == st1);
    assert(r3 is Ok && st3.table_name == Some(t) && st3.column_defs == st2.column_defs);
    assert(head.take(1).drop_last() =~= head.take(0));
    assert(head.take(2).drop_last() =~= head.take(1));
    assert(head.take(3).drop_last() =~= head.take(2));
    assert(head.take(0) =~= Seq::<TokenV>::empty());
    assert(head.take(3) =~= head);
    assert(crate::builder::build_create(head.take(0)) == Ok::<_, ErrorV>(st0));
    assert(crate::builder::build_create(head.take(1)) == r1);
    assert(crate::builder::build_create(head.take(2)) == r2);
    assert(crate::builder::build_create(head) == r3);
    assert(st3.column_defs.len() == 0);
    assert(crate::builder::defs_complete_from(st3.column_defs, 0) == Ok::<
        Seq<ColumnDefV>,
        FieldName,
    >(Seq::empty()));
}

/// The canonical text of a three-column `INSERT INTO` statement.
pub open spec fn insert_text3(
    t: Seq<char>,
    c1: Seq<char>,
    c2: Seq<char>,
    c3: Seq<char>,
    v1: Seq<char>,
    v2: Seq<char>,
    v3: Seq<char>,
) -> Seq<char> {
    "INSERT INTO "@ + t + " ("@ + c1 + ", "@ + c2 + ", "@ + c3 + ") VALUES ("@ + v1 + ", "@ + v2
        + ", "@ + v3 + ")"@
}

/// Every well-formed three-column `INSERT INTO` text parses to an insert
/// record whose columns and values are the given sequences, index-aligned.
#[verifier::rlimit(100)]
pub proof fn law_insert_three_columns(
    t: Seq<char>,
    c1: Seq<char>,
    c2: Seq<char>,
    c3: Seq<char>,
    v1: Seq<char>,
    v2: Seq<char>,
    v3: Seq<char>,
)
    requires
        is_word(t),
        is_word(c1),
        is_word(c2),
        is_word(c3),
        is_word(v1),
        is_word(v2),
        is_word(v3),
    ensures
        parse_sql_spec(insert_text3(t, c1, c2, c3, v1, v2, v3)) == Ok::<StmntV, ErrorV>(
            StmntV::InsertStmnt(
                InsertStmntV { table_name: t, columns: seq![c1, c2, c3], values: seq![v1, v2, v3] },
            ),
        ),
{
    reveal_strlit("INSERT INTO ");
    reveal_strlit(" (");
    reveal_strlit(", ");
    reveal_strlit(") VALUES (");
    reveal_strlit(")");
    reveal_strlit("INSERT");
    reveal_strlit("INTO");
    reveal_strlit("VALUES");
    let s = insert_text3(t, c1, c2, c3, v1, v2, v3);
    let tl = t.len() as int;
    let c1l = c1.len() as int;
    let c2l = c2.len() as int;
    let c3l = c3.len() as int;
    let v1l = v1.len() as int;
    let v2l = v2.len() as int;
    let v3l = v3.len() as int;
    let p1 = 14 + tl + c1l;
    let q2 = p1 + 2;
    let p2 = q2 + c2l;
    let q3 = p2 + 2;
    let p3 = q3 + c3l;
    let q4 = p3 + 10;
    let r1 = q4 + v1l;
    let q5 = r1 + 2;
    let r2 = q5 + v2l;
    let q6 = r2 + 2;
    let r3 = q6 + v3l;
    let n = s.len() as int;
    assert(n == r3 + 1);
    assert forall|k: int| 0 <= k < 12 implies s[k] == "INSERT INTO "@[k] by {}
    assert forall|k: int| 0 <= k < tl implies s[12 + k] == t[k] by {}
    assert forall|k: int| 0 <= k < 2 implies s[12 + tl + k] == " ("@[k] by {}
    assert forall|k: int| 0 <= k < c1l implies s[14 + tl + k] == c1[k] by {}
    assert forall|k: int| 0 <= k < 2 implies s[p1 + k] == ", "@[k] by {}
    assert forall|k: int| 0 <= k < c2l implies s[q2 + k] == c2[k] by {}
    assert forall|k: int| 0 <= k < 2 implies s[p2 + k] == ", "@[k] by {}
    assert forall|k: int| 0 <= k < c3l implies s[q3 + k] == c3[k] by {}
    assert forall|k: int| 0 <= k < 10 implies s[p3 + k] == ") VALUES ("@[k] by {}
    assert forall|k: int| 0 <= k < v1l implies s[q4 + k] == v1[k] by {}
    assert forall|k: int| 0 <= k < 2 implies s[r1 + k] == ", "@[k] by {}
    assert forall|k: int| 0 <= k < v2l implies s[q5 + k] == v2[k] by {}
    assert forall|k: int| 0 <= k < 2 implies s[r2 + k] == ", "@[k] by {}
    assert forall|k: int| 0 <= k < v3l implies s[q6 + k] == v3[k] by {}
    assert(s[r3] == ')');
    assert forall|k: int| 0 <= k < 6 implies s[k] == "INSERT"@[k] by {}
    assert forall|k: int| 0 <= k < 4 implies s[7 + k] == "INTO"@[k] by {}
    assert forall|k: int| 0 <= k < 6 implies s[p3 + 2 + k] == "VALUES"@[k] by {
        assert(") VALUES ("@[2 + k] == "VALUES"@[k]);
    }
    lemma_lex_word_at(s, 0, "INSERT"@);
    lemma_lex_ws_at(s, 6);
    lemma_lex_word_at(s, 7, "INTO"@);
    lemma_lex_ws_at(s, 11);
    lemma_lex_word_at(s, 12, t);
    lemma_lex_ws_at(s, 12 + tl);
    lemma_lex_punct_at(s, 13 + tl);
    lemma_lex_word_at(s, 14 + tl, c1);
    lemma_lex_punct_at(s, p1);
    lemma_lex_ws_at(s, p1 + 1);
    lemma_lex_word_at(s, q2, c2);
    lemma_lex_punct_at(s, p2);
    lemma_lex_ws_at(s, p2 + 1);
    lemma_lex_word_at(s, q3, c3);
    lemma_lex_punct_at(s, p3);
    lemma_lex_ws_at(s, p3 + 1);
    lemma_lex_word_at(s, p3 + 2, "VALUES"@);
    lemma_lex_ws_at(s, p3 + 8);
    lemma_lex_punct_at(s, p3 + 9);
    lemma_lex_word_at(s, q4, v1);
    lemma_lex_punct_at(s, r1);
    lemma_lex_ws_at(s, r1 + 1);
    lemma_lex_word_at(s, q5, v2);
    lemma_lex_punct_at(s, r2);
    lemma_lex_ws_at(s, r2 + 1);
    lemma_lex_word_at(s, q6, v3);
    lemma_lex_punct_at(s, r3);
    let ghost t18: Seq<LexemeV> = Seq::empty();
    assert(lex_from(s, n) == Some(t18));
    let ghost t17 = seq![LexemeV::Punct(')')] + t18;
    assert(lex_from(s, r3) == Some(t17));
    let ghost t16 = seq![LexemeV::Word(v3)] + t17;
    assert(lex_from(s, q6) == Some(t16));
    let ghost t15 = seq![LexemeV::Punct(',')] + t16;
    assert(lex_from(s, r2) == Some(t15));
    let ghost t14 = seq![LexemeV::Word(v2)] + t15;
    assert(lex_from(s, q5) == Some(t14));
    let ghost t13 = seq![LexemeV::Punct(',')] + t14;
    assert(lex_from(s, r1) == Some(t13));
    let ghost t12 = seq![LexemeV::Word(v1)] + t13;
    assert(lex_from(s, q4) == Some(t12));
    let ghost t11 = seq![LexemeV::Punct('(')] + t12;
    assert(lex_from(s, p3 + 9) == Some(t11));
    let ghost t10 = seq![LexemeV::Word("VALUES"@)] + t11;
    assert(lex_from(s, p3 + 2) == Some(t10));
    let ghost t9 = seq![LexemeV::Punct(')')] + t10;
    assert(lex_from(s, p3) == Some(t9));
    let ghost t8 = seq![LexemeV::Word(c3)] + t9;
    assert(lex_from(s, q3) == Some(t8));
    let ghost t7 = seq![LexemeV::Punct(',')] + t8;
    assert(lex_from(s, p2) == Some(t7));
    let ghost t6 = seq![LexemeV::Word(c2)] + t7;
    assert(lex_from(s, q2) == Some(t6));
    let ghost t5 = seq![LexemeV::Punct(',')] + t6;
    assert(lex_from(s, p1) == Some(t5));
    let ghost t4 = seq![LexemeV::Word(c1)] + t5;
    assert(lex_from(s, 14 + tl) == Some(t4));
    let ghost t3 = seq![LexemeV::Punct('(')] + t4;
    assert(lex_from(s, 13 + tl) == Some(t3));
    let ghost t2 = seq![LexemeV::Word(t)] + t3;
    assert(lex_from(s, 12) == Some(t2));
    let ghost t1 = seq![LexemeV::Word("INTO"@)] + t2;
    assert(lex_from(s, 7) == Some(t1));
    let ghost t0 = seq![LexemeV::Word("INSERT"@)] + t1;
    assert(lex_from(s, 0) == Some(t0));
    let ls = seq![
        LexemeV::Word("INSERT"@),
        LexemeV::Word("INTO"@),
        LexemeV::Word(t),
        LexemeV::Punct('('),
        LexemeV::Word(c1),
        LexemeV::Punct(','),
        LexemeV::Word(c2),
        LexemeV::Punct(','),
        LexemeV::Word(c3),
        LexemeV::Punct(')'),
        LexemeV::Word("VALUES"@),
        LexemeV::Punct('('),
        LexemeV::Word(v1),
        LexemeV::Punct(','),
        LexemeV::Word(v2),
        LexemeV::Punct(','),
        LexemeV::Word(v3),
        LexemeV::Punct(')'),
    ];
    assert(t0 =~= ls);
    assert(lex(s) == Some(ls));

    let cols = seq![tok(Rule::ColumnName, c1), tok(Rule::ColumnName, c2), tok(Rule::ColumnName, c3)];
    let vals = seq![tok(Rule::Value, v1), tok(Rule::Value, v2), tok(Rule::Value, v3)];
    assert(crate::grammar::parse_list(ls, 8, Rule::ColumnName) == Some::<(Seq<TokenV>, int)>((
        seq![tok(Rule::ColumnName, c3)],
        10,
    )));
    assert(crate::grammar::parse_list(ls, 6, Rule::ColumnName) == Some::<(Seq<TokenV>, int)>((
        seq![tok(Rule::ColumnName, c2)] + seq![tok(Rule::ColumnName, c3)],
        10,
    )));
    assert(crate::grammar::parse_list(ls, 4, Rule::ColumnName) == Some::<(Seq<TokenV>, int)>((
        seq![tok(Rule::ColumnName, c1)] + (seq![tok(Rule::ColumnName, c2)] + seq![
            tok(Rule::ColumnName, c3),
        ]),
        10,
    )));
    assert(seq![tok(Rule::ColumnName, c1)] + (seq![tok(Rule::ColumnName, c2)] + seq![
        tok(Rule::ColumnName, c3),
    ]) =~= cols);
    assert(crate::grammar::parse_list(ls, 16, Rule::Value) == Some::<(Seq<TokenV>, int)>((
        seq![tok(Rule::Value, v3)],
        18,
    )));
    assert(crate::grammar::parse_list(ls, 14, Rule::Value) == Some::<(Seq<TokenV>, int)>((
        seq![tok(Rule::Value, v2)] + seq![tok(Rule::Value, v3)],
        18,
    )));
    assert(crate::grammar::parse_list(ls, 12, Rule::Value) == Some::<(Seq<TokenV>, int)>((
        seq![tok(Rule::Value, v1)] + (seq![tok(Rule::Value, v2)] + seq![tok(Rule::Value, v3)]),
        18,
    )));
    assert(seq![tok(Rule::Value, v1)] + (seq![tok(Rule::Value, v2)] + seq![tok(Rule::Value, v3)])
        =~= vals);
    let head = seq![
        tok(Rule::InsertKw, "INSERT"@),
        tok(Rule::OtherKw, "INTO"@),
        tok(Rule::TableName, t),
    ];
    let toks = seq![
        tok(Rule::InsertKw, "INSERT"@),
        tok(Rule::OtherKw, "INTO"@),
        tok(Rule::TableName, t),
        tok(Rule::ColumnName, c1),
        tok(Rule::ColumnName, c2),
        tok(Rule::ColumnName, c3),
        tok(Rule::OtherKw, "VALUES"@),
        tok(Rule::Value, v1),
        tok(Rule::Value, v2),
        tok(Rule::Value, v3),
    ];
    assert(ls[10] == LexemeV::Word("VALUES"@));
    assert(ls[11] == LexemeV::Punct('('));
    assert(ls.len() == 18);
    assert(ls[1] == LexemeV::Word("INTO"@));
    assert(ls[2] is Word && ls[2]->Word_0 == t);
    assert(ls[3] == LexemeV::Punct('('));
    let rc = crate::grammar::parse_list(ls, 4, Rule::ColumnName);
    let rv = crate::grammar::parse_list(ls, 12, Rule::Value);
    assert(rc->Some_0.0 =~= cols && rc->Some_0.1 == 10);
    assert(rv->Some_0.0 =~= vals && rv->Some_0.1 == 18);
    assert(crate::grammar::parse_insert_lexemes(ls) == Some(
        seq![
            tok(Rule::InsertKw, "INSERT"@),
            tok(Rule::OtherKw, "INTO"@),
            tok(Rule::TableName, ls[2]->Word_0),
        ] + rc->Some_0.0 + seq![tok(Rule::OtherKw, "VALUES"@)] + rv->Some_0.0,
    ));
    let hc = head + cols;
    assert(hc =~= seq![
        tok(Rule::InsertKw, "INSERT"@),
        tok(Rule::OtherKw, "INTO"@),
        tok(Rule::TableName, t),
        tok(Rule::ColumnName, c1),
        tok(Rule::ColumnName, c2),
        tok(Rule::ColumnName, c3),
    ]);
    let hcv = hc + seq![tok(Rule::OtherKw, "VALUES"@)];
    assert(hcv =~= seq![
        tok(Rule::InsertKw, "INSERT"@),
        tok(Rule::OtherKw, "INTO"@),
        tok(Rule::TableName, t),
        tok(Rule::ColumnName, c1),
        tok(Rule::ColumnName, c2),
        tok(Rule::ColumnName, c3),
        tok(Rule::OtherKw, "VALUES"@),
    ]);
    assert(hcv + vals =~= toks);
    assert(head + cols + seq![tok(Rule::OtherKw, "VALUES"@)] + vals == hcv + vals);
    reveal_strlit("CREATE");
    reveal_strlit("SELECT");
    assert("INSERT"@ != "CREATE"@) by {
        assert("INSERT"@[0] == 'I' && "CREATE"@[0] == 'C');
    }
    assert("INSERT"@ != "SELECT"@) by {
        assert("INSERT"@[0] == 'I' && "SELECT"@[0] == 'S');
    }
    assert(tokens_of_lexemes(ls) == crate::grammar::parse_insert_lexemes(ls));
    assert(tokens_of_text(s) == Some(toks));
    assert(first_kw(toks, 0) == Some(Rule::InsertKw));
    let st0 = crate::builder::insert_init();
    let st1 = crate::builder::insert_step(st0, toks[0]);
    let st2 = crate::builder::insert_step(st1, toks[1]);
    let st3 = crate::builder::insert_step(st2, toks[2]);
    let st4 = crate::builder::insert_step(st3, toks[3]);
    let st5 = crate::builder::insert_step(st4, toks[4]);
    let st6 = crate::builder::insert_step(st5, toks[5]);
    let st7 = crate::builder::insert_step(st6, toks[6]);
    let st8 = crate::builder::insert_step(st7, toks[7]);
    let st9 = crate::builder::insert_step(st8, toks[8]);
    let st10 = crate::builder::insert_step(st9, toks[9]);
    assert(toks.take(1).drop_last() =~= toks.take(0));
    assert(toks.take(2).drop_last() =~= toks.take(1));
    assert(toks.take(3).drop_last() =~= toks.take(2));
    assert(toks.take(4).drop_last() =~= toks.take(3));
    assert(toks.take(5).drop_last() =~= toks.take(4));
    assert(toks.take(6).drop_last() =~= toks.take(5));
    assert(toks.take(7).drop_last() =~= toks.take(6));
    assert(toks.take(8).drop_last() =~= toks.take(7));
    assert(toks.take(9).drop_last() =~= toks.take(8));
    assert(toks.take(10).drop_last() =~= toks.take(9));
    assert(toks.take(0) =~= Seq::<TokenV>::empty());
    assert(toks.take(10) =~= toks);
    assert(crate::builder::build_insert(toks.take(0)) == st0);
    assert(crate::builder::build_insert(toks.take(1)) == st1);
    assert(crate::builder::build_insert(toks.take(2)) == st2);
    assert(crate::builder::build_insert(toks.take(3)) == st3);
    assert(crate::builder::build_insert(toks.take(4)) == st4);
    assert(crate::builder::build_insert(toks.take(5)) == st5);
    assert(crate::builder::build_insert(toks.take(6)) == st6);
    assert(crate::builder::build_insert(toks.take(7)) == st7);
    assert(crate::builder::build_insert(toks.take(8)) == st8);
    assert(crate::builder::build_insert(toks.take(9)) == st9);
    assert(crate::builder::build_insert(toks) == st10);
    assert(st10.table_name == Some(t));
    assert(st10.columns =~= seq![Some(c1), Some(c2), Some(c3)]);
    assert(st10.values =~= seq![Some(v1), Some(v2), Some(v3)]);
    assert(crate::builder::all_present(st10.columns));
    assert(crate::builder::all_present(st10.values));
    assert(crate::builder::unwrapped(st10.columns) =~= seq![c1, c2, c3]);
    assert(crate::builder::unwrapped(st10.values) =~= seq![v1, v2, v3]);
}

/// Idempotence: the parse is a pure function of its input, so re-parsing the
/// same text yields structurally equal results.
pub proof fn law_parse_deterministic(
    s1: Seq<char>,
    s2: Seq<char>,
    r1: Result<StmntV, ErrorV>,
    r2: Result<StmntV, ErrorV>,
)
    requires
        s1 == s2,
        r1 == parse_sql_spec(s1),
        r2 == parse_sql_spec(s2),
    ensures
        r1 == r2,
{
}

/// A word-only statement yields only `OtherKw` tokens.
proof fn lemma_parse_other_tokens(ls: Seq<LexemeV>, i: int)
    requires
        0 <= i <= ls.len(),
        forall|k: int| 0 <= k < ls.len() ==> ls[k] is Word,
    ensures
        parse_other(ls, i) is Some,
        forall|k: int|
            0 <= k < parse_other(ls, i)->Some_0.len() ==> parse_other(ls, i)->Some_0[k].rule
                == Rule::OtherKw,
    decreases ls.len() - i,
{
    if i < ls.len() {
        lemma_parse_other_tokens(ls, i + 1);
        let rest = parse_other(ls, i + 1)->Some_0;
        let whole = parse_other(ls, i)->Some_0;
        assert(whole == seq![tok(Rule::OtherKw, ls[i]->Word_0)] + rest);
        assert forall|k: int| 0 <= k < whole.len() implies whole[k].rule == Rule::OtherKw by {
            if k > 0 {
                assert(whole[k] == rest[k - 1]);
            }
        }
    }
}

/// A token sequence without a statement keyword has no first keyword.
proof fn lemma_first_kw_none(toks: Seq<TokenV>, i: int)
    requires
        0 <= i <= toks.len(),
        forall|k: int| 0 <= k < toks.len() ==> toks[k].rule == Rule::OtherKw,
    ensures
        first_kw(toks, i) is None,
    decreases toks.len() - i,
{
    if i < toks.len() {
        lemma_first_kw_none(toks, i + 1);
    }
}

/// A statement of words whose leading word is no recognized keyword — for
/// example `DELETE FROM foo` — tokenizes, and the dispatcher reports an
/// unrecognized statement rather than failing any other way.
pub proof fn law_unrecognized_statement(s: Seq<char>, ls: Seq<LexemeV>)
    requires
        lex(s) == Some(ls),
        ls.len() > 0,
        forall|k: int| 0 <= k < ls.len() ==> ls[k] is Word,
        ls[0] != LexemeV::Word("CREATE"@),
        ls[0] != LexemeV::Word("SELECT"@),
        ls[0] != LexemeV::Word("INSERT"@),
    ensures
        parse_sql_spec(s) == Err::<StmntV, ErrorV>(ErrorV::UnrecognizedStatement),
{
    lemma_parse_other_tokens(ls, 0);
    assert(tokens_of_lexemes(ls) == parse_other(ls, 0));
    let toks = parse_other(ls, 0)->Some_0;
    lemma_first_kw_none(toks, 0);
    assert(parse_tokens(toks) == Err::<StmntV, ErrorV>(ErrorV::UnrecognizedStatement));
}

} // verus!
