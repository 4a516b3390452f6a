//! What holds of the tokens of every source text.

use vstd::prelude::*;
use crate::lexer::{column_of, lemma_lexeme_bounds, lexeme_at, lexeme_text, lexemes_from, line_of, line_start, newlines_before, token_of, tokens_of, Lexeme};
use crate::text::{is_blank, lemma_run_end, CharClass};
use crate::token::{TokenType, TokenView};

verus! {

/// Whether the place of `a` is before the place of `b`: on an earlier line,
/// or on the same line in an earlier column.
pub open spec fn placed_before(a: TokenView, b: TokenView) -> bool {
    a.line < b.line || (a.line == b.line && a.column < b.column)
}

/// Whether the place of `a` is not after the place of `b`.
pub open spec fn placed_not_after(a: TokenView, b: TokenView) -> bool {
    a.line < b.line || (a.line == b.line && a.column <= b.column)
}

/// Whether position `p` lies in one of the pieces `ls`.
pub open spec fn in_a_piece(ls: Seq<Lexeme>, p: int) -> bool {
    exists|k: int| 0 <= k < ls.len() && (#[trigger] ls[k]).start <= p < ls[k].end
}

/// Whether the character at `p` is accounted for: it is a blank, or it lies
/// in one of the pieces `ls`.
pub open spec fn accounted(src: Seq<char>, ls: Seq<Lexeme>, p: int) -> bool {
    is_blank(src[p]) || in_a_piece(ls, p)
}

/// Whether the pieces `ls` cut the source from `from` on into tokens: each
/// piece is the token that starts at its first character, which is no blank;
/// the pieces lie inside the text, in source order and without overlap; and
/// every character from `from` on that is no blank lies in one of them.
pub open spec fn covers(src: Seq<char>, ls: Seq<Lexeme>, from: int) -> bool {
    &&& forall|k: int|
        0 <= k < ls.len() ==> {
            &&& from <= (#[trigger] ls[k]).start < ls[k].end <= src.len()
            &&& !is_blank(src[ls[k].start])
            &&& ls[k] == lexeme_at(src, ls[k].start)
        }
    &&& forall|a: int, b: int|
        0 <= a < b < ls.len() ==> (#[trigger] ls[a]).end <= (#[trigger] ls[b]).start
    &&& forall|p: int| from <= p < src.len() ==> #[trigger] accounted(src, ls, p)
}

/// The pieces found from position `i` on cut the source from `i` on into
/// tokens.
pub proof fn lemma_lexemes_cover(src: Seq<char>, i: int)
    requires
        0 <= i <= src.len(),
    ensures
        covers(src, lexemes_from(src, i), i),
    decreases src.len() - i,
{
    let ls = lexemes_from(src, i);
    if i >= src.len() {
    } else if is_blank(src[i]) {
        lemma_lexemes_cover(src, i + 1);
    } else {
        let l = lexeme_at(src, i);
        lemma_lexeme_bounds(src, i);
        lemma_lexemes_cover(src, l.end);
        let rest = lexemes_from(src, l.end);
        assert forall|p: int| i <= p < src.len() implies #[trigger] accounted(src, ls, p) by {
            if p < l.end {
                assert(ls[0] == l);
            } else if !is_blank(src[p]) {
                assert(accounted(src, rest, p));
                let k = choose|k: int|
                    0 <= k < rest.len() && (#[trigger] rest[k]).start <= p < rest[k].end;
                assert(ls[k + 1] == rest[k]);
            }
        }
    }
}

/// The tokenizer drops nothing but blanks. The tokens of a source text are
/// cut from pieces of it that lie in source order and do not overlap; every
/// character that is no blank lies in one of the pieces; a token other than
/// an action block carries its piece as it is, and an action block carries
/// what stands between its opening brace and the first closing brace,
/// trimmed.
pub proof fn lemma_tokens_cover_source(src: Seq<char>)
    ensures
        covers(src, lexemes_from(src, 0), 0),
        tokens_of(src).len() == lexemes_from(src, 0).len(),
        forall|k: int|
            0 <= k < tokens_of(src).len() ==> {
                let l = lexemes_from(src, 0)[k];
                &&& (#[trigger] tokens_of(src)[k]) == token_of(src, l)
                &&& l.kind != TokenType::ActionBlock ==> tokens_of(src)[k].text == src.subrange(
                    l.start,
                    l.end,
                )
                &&& l.kind == TokenType::ActionBlock ==> src[l.start] == '{'
                    && tokens_of(src)[k].text == lexeme_text(src, l)
            },
{
    lemma_lexemes_cover(src, 0);
}

/// The tokenizer produces nine kinds of token: never `Whitespace`, never
/// `Unknown`. A token of one or two fixed characters and a token of pattern
/// text hold no blank, so they lie on one line.
pub proof fn lemma_token_kinds(src: Seq<char>)
    ensures
        forall|k: int|
            0 <= k < tokens_of(src).len() ==> {
                let l = lexemes_from(src, 0)[k];
                let kind = (#[trigger] tokens_of(src)[k]).kind;
                &&& kind != TokenType::Whitespace
                &&& kind != TokenType::Unknown
                &&& kind == TokenType::Colon || kind == TokenType::Pipe || kind
                    == TokenType::Semicolon || kind == TokenType::SectionSeparator || kind
                    == TokenType::Regex ==> forall|p: int|
                    l.start <= p < l.end ==> !is_blank(#[trigger] src[p])
            },
{
    lemma_lexemes_cover(src, 0);
    assert forall|k: int| 0 <= k < tokens_of(src).len() implies {
        let l = lexemes_from(src, 0)[k];
        let kind = (#[trigger] tokens_of(src)[k]).kind;
        &&& kind != TokenType::Whitespace
        &&& kind != TokenType::Unknown
        &&& kind == TokenType::Colon || kind == TokenType::Pipe || kind == TokenType::Semicolon
            || kind == TokenType::SectionSeparator || kind == TokenType::Regex ==> forall|p: int|
            l.start <= p < l.end ==> !is_blank(#[trigger] src[p])
    } by {
        let l = lexemes_from(src, 0)[k];
        lemma_run_end(src, l.start, CharClass::Pattern);
    }
}

/// A later position of the text is on a later line, or on the same line in
/// a later column.
pub proof fn lemma_places_increase(src: Seq<char>, i: int, j: int)
    requires
        0 <= i < j <= src.len(),
    ensures
        line_of(src, i) < line_of(src, j) || (line_of(src, i) == line_of(src, j) && column_of(
            src,
            i,
        ) < column_of(src, j)),
        0 <= line_start(src, i) <= i,
        0 <= line_start(src, j) <= j,
    decreases j - i,
{
    lemma_line_start_bounds(src, i);
    lemma_line_start_bounds(src, j);
    lemma_line_start_bounds(src, j - 1);
    if i < j - 1 {
        lemma_places_increase(src, i, j - 1);
    }
}

/// The line of a position starts at or before it.
pub proof fn lemma_line_start_bounds(src: Seq<char>, i: int)
    requires
        0 <= i <= src.len(),
    ensures
        0 <= line_start(src, i) <= i,
        newlines_before(src, i) <= i,
    decreases i,
{
    if i > 0 {
        lemma_line_start_bounds(src, i - 1);
    }
}

/// The tokens of a source text come in the order of their places: each is
/// placed before every later one.
pub proof fn lemma_tokens_in_order(src: Seq<char>)
    ensures
        forall|a: int, b: int|
            0 <= a < b < tokens_of(src).len() ==> placed_before(
                #[trigger] tokens_of(src)[a],
                #[trigger] tokens_of(src)[b],
            ),
        forall|a: int, b: int|
            0 <= a <= b < tokens_of(src).len() ==> placed_not_after(
                #[trigger] tokens_of(src)[a],
                #[trigger] tokens_of(src)[b],
            ),
{
    let ls = lexemes_from(src, 0);
    lemma_lexemes_cover(src, 0);
    assert forall|a: int, b: int| 0 <= a < b < tokens_of(src).len() implies placed_before(
        #[trigger] tokens_of(src)[a],
        #[trigger] tokens_of(src)[b],
    ) by {
        lemma_places_increase(src, ls[a].start, ls[b].start);
    }
}

} // verus!
