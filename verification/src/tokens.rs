//! Labeled tokens, the nested token tree the grammar engine yields, and the
//! flattener that turns a tree into the linear token sequence the statement
//! builders consume.
use vstd::prelude::*;

verus! {

/// The rule vocabulary: every leaf of a token tree carries one of these
/// labels. Keywords that decide no statement field are labeled `OtherKw`.
#[derive(Debug, Clone, Copy, PartialEq, Eq, Structural)]
pub enum Rule {
    CreateKw,
    SelectKw,
    InsertKw,
    OtherKw,
    TableName,
    ColumnName,
    ColumnType,
    Value,
    Star,
}

/// One leaf token: a rule label and the matched substring.
#[derive(Debug, PartialEq)]
pub struct Token {
    pub rule: Rule,
    pub text: String,
}

/// Spec model of a token.
pub struct TokenV {
    pub rule: Rule,
    pub text: Seq<char>,
}

impl View for Token {
    type V = TokenV;

    open spec fn view(&self) -> TokenV {
        TokenV { rule: self.rule, text: self.text@ }
    }
}

/// Shorthand for a spec-level token.
pub open spec fn tok(rule: Rule, text: Seq<char>) -> TokenV {
    TokenV { rule, text }
}

/// The nested structure the grammar engine produces: leaves carry labeled
/// matched text, interior nodes only group.
#[derive(Debug, PartialEq)]
pub enum TokenTree {
    Leaf(Token),
    Node(Vec<TokenTree>),
}

/// The leaves of a token tree in document order: what flattening yields.
pub open spec fn leaves_of(t: TokenTree) -> Seq<TokenV>
    decreases t,
{
    match t {
        TokenTree::Leaf(token) => seq![token@],
        TokenTree::Node(children) => leaves_of_list(children@),
    }
}

/// The leaves of a forest, left to right.
pub open spec fn leaves_of_list(ts: Seq<TokenTree>) -> Seq<TokenV>
    decreases ts,
{
    if ts.len() == 0 {
        Seq::empty()
    } else {
        leaves_of(ts[0]) + leaves_of_list(ts.subrange(1, ts.len() as int))
    }
}

/// The view of a flattened token sequence.
pub open spec fn tokens_view(ts: Seq<Token>) -> Seq<TokenV> {
    ts.map_values(|t: Token| t@)
}

pub proof fn lemma_tokens_view_push(ts: Seq<Token>, t: Token)
    ensures
        tokens_view(ts.push(t)) =~= tokens_view(ts).push(t@),
{
}

/// Flattening a forest one tree at a time appends that tree's leaves.
pub proof fn lemma_leaves_list_push(ts: Seq<TokenTree>, t: TokenTree)
    ensures
        leaves_of_list(ts.push(t)) =~= leaves_of_list(ts) + leaves_of(t),
    decreases ts.len(),
{
    if ts.len() == 0 {
        assert(ts.push(t).len() == 1);
        assert(ts.push(t)[0] == t);
        assert(ts.push(t).subrange(1, 1) =~= Seq::<TokenTree>::empty());
        assert(leaves_of_list(Seq::<TokenTree>::empty()) == Seq::<TokenV>::empty());
        assert(leaves_of_list(ts.push(t)) == leaves_of(t) + Seq::<TokenV>::empty());
        assert(leaves_of(t) + Seq::<TokenV>::empty() =~= leaves_of(t));
        assert(leaves_of_list(ts) == Seq::<TokenV>::empty());
        assert(Seq::<TokenV>::empty() + leaves_of(t) =~= leaves_of(t));
    } else {
        lemma_leaves_list_push(ts.subrange(1, ts.len() as int), t);
        assert(ts.push(t).subrange(1, ts.push(t).len() as int) =~= ts.subrange(
            1,
            ts.len() as int,
        ).push(t));
        assert(leaves_of_list(ts) + leaves_of(t) =~= leaves_of(ts[0]) + (leaves_of_list(
            ts.subrange(1, ts.len() as int),
        ) + leaves_of(t)));
    }
}

/// Copies one token.
fn copy_token(t: &Token) -> (r: Token)
    ensures
        r@ == t@,
{
    Token { rule: t.rule, text: t.text.as_str().to_owned() }
}

/// Depth-first traversal that appends the leaves of `t`, in the left-to-right
/// order of the original text, to `out`.
pub fn flatten_into(t: &TokenTree, out: &mut Vec<Token>)
    ensures
        tokens_view(final(out)@) == tokens_view(old(out)@) + leaves_of(*t),
    decreases *t,
{
    match t {
        TokenTree::Leaf(token) => {
            let copied = copy_token(token);
            proof {
                lemma_tokens_view_push(out@, copied);
                assert(tokens_view(out@).push(copied@) =~= tokens_view(out@) + leaves_of(*t));
            }
            out.push(copied);
        },
        TokenTree::Node(children) => {
            let n = children.len();
            let mut k: usize = 0;
            proof {
                assert(tokens_view(out@) + leaves_of_list(children@.subrange(0, 0)) =~= tokens_view(
                    out@,
                ));
            }
            while k < n
                invariant
                    n == children@.len(),
                    0 <= k <= n,
                    *t == TokenTree::Node(*children),
                    tokens_view(out@) == tokens_view(old(out)@) + leaves_of_list(
                        children@.subrange(0, k as int),
                    ),
                decreases n - k,
            {
                proof {
                    assert(*t == TokenTree::Node(*children));
                    assert(t->Node_0 == *children);
                    assert(decreases_to!(*t => t->Node_0));
                    assert(decreases_to!(*children => children@));
                    assert(decreases_to!(children@ => children@[k as int]));
                }
                flatten_into(&children[k], out);
                proof {
                    lemma_leaves_list_push(children@.subrange(0, k as int), children@[k as int]);
                    assert(children@.subrange(0, k as int).push(children@[k as int])
                        =~= children@.subrange(0, k + 1));
                    assert((tokens_view(old(out)@) + leaves_of_list(children@.subrange(0, k as int)))
                        + leaves_of(children@[k as int]) =~= tokens_view(old(out)@) + leaves_of_list(
                        children@.subrange(0, k + 1),
                    ));
                }
                k += 1;
            }
            proof {
                assert(children@.subrange(0, n as int) =~= children@);
            }
        },
    }
}

/// Flattens a token tree into its leaf sequence.
pub fn flatten(t: &TokenTree) -> (r: Vec<Token>)
    ensures
        tokens_view(r@) == leaves_of(*t),
{
    let mut out: Vec<Token> = Vec::new();
    proof {
        assert(tokens_view(Seq::<Token>::empty()) =~= Seq::<TokenV>::empty());
    }
    flatten_into(t, &mut out);
    proof {
        assert(Seq::<TokenV>::empty() + leaves_of(*t) =~= leaves_of(*t));
    }
    out
}

} // verus!
