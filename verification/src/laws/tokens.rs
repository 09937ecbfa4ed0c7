//! Theorems about tokens: they lie in the text in order, each is the
//! longest token that starts where it does, and what lies between them is
//! whitespace.

use crate::lexer::{
    Token, lemma_lexeme_fits, lexeme_len, token_at, tokens, tokens_from, well_placed,
};
use crate::text::whitespace;
use vstd::prelude::*;

verus! {

/// The character at `p` belongs to one of the tokens.
pub open spec fn covered(toks: Seq<Token>, p: int) -> bool {
    exists|k: int| 0 <= k < toks.len() && (#[trigger] toks[k]).start <= p < toks[k].end
}

/// The tokens `toks` account for the first `upto` characters of `src`: they
/// lie in order within them, each is the token that starts at its place,
/// and every character that none of them covers is whitespace.
pub open spec fn accounts_for(src: Seq<char>, toks: Seq<Token>, upto: int) -> bool {
    &&& well_placed(src, toks)
    &&& forall|k: int| 0 <= k < toks.len() ==> (#[trigger] toks[k]).end <= upto
    &&& forall|k: int| 0 <= k < toks.len() ==> #[trigger] toks[k] == token_at(src, toks[k].start as int)
    &&& forall|p: int| 0 <= p < upto ==> covered(toks, p) || whitespace(#[trigger] src[p])
}

/// Lexing on from `pos` keeps accounting for the text, to its end.
proof fn lemma_tokens_from_account(src: Seq<char>, pos: int, acc: Seq<Token>)
    requires
        0 <= pos <= src.len() <= usize::MAX,
        accounts_for(src, acc, pos),
    ensures
        accounts_for(src, tokens_from(src, pos, acc), src.len() as int),
    decreases src.len() - pos,
{
    if pos < src.len() {
        if whitespace(src[pos]) {
            lemma_tokens_from_account(src, pos + 1, acc);
        } else {
            lemma_lexeme_fits(src, pos);
            let t = token_at(src, pos);
            let end = pos + lexeme_len(src, pos);
            let more = acc.push(t);
            assert(t.start == pos && t.end == end);
            assert forall|i: int, j: int| 0 <= i < j < more.len() implies (#[trigger] more[i]).end
                <= (#[trigger] more[j]).start by {
                if j < acc.len() {
                    assert(more[i] == acc[i] && more[j] == acc[j]);
                } else {
                    assert(more[i] == acc[i]);
                }
            }
            assert forall|p: int| 0 <= p < end implies covered(more, p) || whitespace(
                #[trigger] src[p],
            ) by {
                if p < pos {
                    if covered(acc, p) {
                        let k = choose|k: int|
                            0 <= k < acc.len() && (#[trigger] acc[k]).start <= p < acc[k].end;
                        assert(more[k] == acc[k]);
                    }
                } else {
                    assert(more[acc.len() as int] == t);
                }
            }
            assert(accounts_for(src, more, end));
            lemma_tokens_from_account(src, end, more);
        }
    }
}

/// The tokens of a text lie in it in order without overlap, each is the
/// longest token that starts at its place, and every character outside
/// them is whitespace.
pub proof fn lemma_tokens_account(src: Seq<char>)
    requires
        src.len() <= usize::MAX,
    ensures
        accounts_for(src, tokens(src), src.len() as int),
{
    lemma_tokens_from_account(src, 0, Seq::empty());
}

} // verus!
