//! Lexical layer of the grammar engine: splits statement text into words and
//! punctuation marks. Whitespace separates lexemes and is otherwise
//! insignificant; any character outside the alphabet is a syntax error.
use vstd::prelude::*;

verus! {

/// Whitespace: insignificant between lexemes, required between adjacent words.
pub open spec fn is_ws_char(c: char) -> bool {
    c == ' ' || c == '\t' || c == '\r' || c == '\n'
}

/// Characters that may form a word (identifiers, keywords, raw values).
pub open spec fn is_word_char(c: char) -> bool {
    ('a' as u32 <= c as u32 && c as u32 <= 'z' as u32) || ('A' as u32 <= c as u32 && c as u32
        <= 'Z' as u32) || ('0' as u32 <= c as u32 && c as u32 <= '9' as u32) || c == '_'
}

/// Punctuation marks of the dialect, each a lexeme of its own.
pub open spec fn is_punct_char(c: char) -> bool {
    c == '{' || c == '}' || c == '(' || c == ')' || c == ',' || c == '*'
}

/// A word is a non-empty run of word characters.
pub open spec fn is_word(w: Seq<char>) -> bool {
    w.len() > 0 && forall|k: int| 0 <= k < w.len() ==> is_word_char(w[k])
}

pub fn ws_char(c: char) -> (r: bool)
    ensures
        r == is_ws_char(c),
{
    c == ' ' || c == '\t' || c == '\r' || c == '\n'
}

pub fn word_char(c: char) -> (r: bool)
    ensures
        r == is_word_char(c),
{
    let u = c as u32;
    ('a' as u32 <= u && u <= 'z' as u32) || ('A' as u32 <= u && u <= 'Z' as u32) || ('0' as u32 <= u
        && u <= '9' as u32) || c == '_'
}

pub fn punct_char(c: char) -> (r: bool)
    ensures
        r == is_punct_char(c),
{
    c == '{' || c == '}' || c == '(' || c == ')' || c == ',' || c == '*'
}

/// One lexeme: a maximal word or a single punctuation mark.
#[derive(Debug, PartialEq)]
pub enum Lexeme {
    Word(String),
    Punct(char),
}

/// Spec model of a lexeme.
pub enum LexemeV {
    Word(Seq<char>),
    Punct(char),
}

impl View for Lexeme {
    type V = LexemeV;

    open spec fn view(&self) -> LexemeV {
        match self {
            Lexeme::Word(w) => LexemeV::Word(w@),
            Lexeme::Punct(c) => LexemeV::Punct(*c),
        }
    }
}

/// The view of a scanned lexeme sequence.
pub open spec fn lexemes_view(ls: Seq<Lexeme>) -> Seq<LexemeV> {
    ls.map_values(|l: Lexeme| l@)
}

/// The index just past the maximal run of word characters starting at `i`.
pub open spec fn word_end(s: Seq<char>, i: int) -> int
    decreases s.len() - i,
        when 0 <= i <= s.len()
{
    if i < s.len() && is_word_char(s[i]) {
        word_end(s, i + 1)
    } else {
        i
    }
}

/// `word_end` stays within bounds, covers only word characters, and stops at
/// the first character that is not one.
pub proof fn lemma_word_end(s: Seq<char>, i: int)
    requires
        0 <= i <= s.len(),
    ensures
        i <= word_end(s, i) <= s.len(),
        forall|k: int| i <= k < word_end(s, i) ==> is_word_char(s[k]),
        word_end(s, i) < s.len() ==> !is_word_char(s[word_end(s, i)]),
    decreases s.len() - i,
{
    if i < s.len() && is_word_char(s[i]) {
        lemma_word_end(s, i + 1);
    }
}

/// `word_end` of a position is the end of any run of word characters that
/// starts there and is ended by a non-word character or the end of text.
pub proof fn lemma_word_end_is(s: Seq<char>, i: int, j: int)
    requires
        0 <= i <= j <= s.len(),
        forall|k: int| i <= k < j ==> is_word_char(s[k]),
        j < s.len() ==> !is_word_char(s[j]),
    ensures
        word_end(s, i) == j,
    decreases j - i,
{
    if i < j {
        lemma_word_end_is(s, i + 1, j);
    }
}

/// Prepends a lexeme to a lexing outcome, keeping failure as failure.
pub open spec fn lex_cons(x: LexemeV, rest: Option<Seq<LexemeV>>) -> Option<Seq<LexemeV>> {
    match rest {
        Some(r) => Some(seq![x] + r),
        None => None,
    }
}

/// Prepends a finished prefix to a lexing outcome.
pub open spec fn lex_prepend(pre: Seq<LexemeV>, rest: Option<Seq<LexemeV>>) -> Option<
    Seq<LexemeV>,
> {
    match rest {
        Some(r) => Some(pre + r),
        None => None,
    }
}

/// The lexemes of `s` from position `i` on: words are maximal, whitespace is
/// skipped, and a character of no class fails the whole text.
pub open spec fn lex_from(s: Seq<char>, i: int) -> Option<Seq<LexemeV>>
    decreases s.len() - i,
        when 0 <= i <= s.len()
        via lex_from_decreases
{
    if i >= s.len() {
        Some(Seq::empty())
    } else if is_ws_char(s[i]) {
        lex_from(s, i + 1)
    } else if is_punct_char(s[i]) {
        lex_cons(LexemeV::Punct(s[i]), lex_from(s, i + 1))
    } else if is_word_char(s[i]) {
        lex_cons(LexemeV::Word(s.subrange(i, word_end(s, i))), lex_from(s, word_end(s, i)))
    } else {
        None
    }
}

#[via_fn]
proof fn lex_from_decreases(s: Seq<char>, i: int) {
    if 0 <= i && i < s.len() && is_word_char(s[i]) {
        lemma_word_end(s, i + 1);
    }
}

/// The lexemes of a whole text.
pub open spec fn lex(s: Seq<char>) -> Option<Seq<LexemeV>> {
    lex_from(s, 0)
}

proof fn lemma_view_push(ls: Seq<Lexeme>, x: Lexeme)
    ensures
        lexemes_view(ls.push(x)) =~= lexemes_view(ls).push(x@),
{
}

/// Scans a statement string into its lexeme sequence; `None` reports a
/// character outside the lexical alphabet.
pub fn scan(s: &str) -> (r: Option<Vec<Lexeme>>)
    ensures
        match r {
            Some(ls) => lex(s@) == Some(lexemes_view(ls@)),
            None => lex(s@) is None,
        },
{
    let n = s.unicode_len();
    let mut out: Vec<Lexeme> = Vec::new();
    let mut i: usize = 0;
    while i < n
        invariant
            n == s@.len(),
            0 <= i <= n,
            lex(s@) == lex_prepend(lexemes_view(out@), lex_from(s@, i as int)),
        decreases n - i,
    {
        let c = s.get_char(i);
        if ws_char(c) {
            i += 1;
        } else if punct_char(c) {
            proof {
                lemma_view_push(out@, Lexeme::Punct(c));
                assert(lex_from(s@, i as int) == lex_cons(
                    LexemeV::Punct(c),
                    lex_from(s@, i + 1),
                ));
                if lex_from(s@, i + 1) is Some {
                    assert(lexemes_view(out@) + (seq![LexemeV::Punct(c)] + lex_from(
                        s@,
                        i + 1,
                    )->Some_0) =~= lexemes_view(out@).push(LexemeV::Punct(c)) + lex_from(
                        s@,
                        i + 1,
                    )->Some_0);
                }
            }
            out.push(Lexeme::Punct(c));
            i += 1;
        } else if word_char(c) {
            let mut j: usize = i + 1;
            proof {
                assert(word_end(s@, i as int) == word_end(s@, j as int));
            }
            while j < n && word_char(s.get_char(j))
                invariant
                    n == s@.len(),
                    i < j <= n,
                    word_end(s@, i as int) == word_end(s@, j as int),
                decreases n - j,
            {
                j += 1;
            }
            proof {
                assert(word_end(s@, j as int) == j as int);
                assert(word_end(s@, i as int) == j as int);
            }
            let text = s.substring_char(i, j);
            let w = Lexeme::Word(text.to_owned());
            proof {
                lemma_view_push(out@, w);
                assert(lex_from(s@, i as int) == lex_cons(
                    LexemeV::Word(s@.subrange(i as int, j as int)),
                    lex_from(s@, j as int),
                ));
                if lex_from(s@, j as int) is Some {
                    assert(lexemes_view(out@) + (seq![LexemeV::Word(text@)] + lex_from(
                        s@,
                        j as int,
                    )->Some_0) =~= lexemes_view(out@).push(LexemeV::Word(text@)) + lex_from(
                        s@,
                        j as int,
                    )->Some_0);
                }
            }
            out.push(w);
            i = j;
        } else {
            proof {
                assert(lex_from(s@, i as int) is None);
            }
            return None;
        }
    }
    proof {
        assert(lex_from(s@, i as int) == Some(Seq::<LexemeV>::empty()));
        assert(lexemes_view(out@) + Seq::<LexemeV>::empty() =~= lexemes_view(out@));
    }
    Some(out)
}

} // verus!
