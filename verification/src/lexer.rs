//! The tokenizer: one pass over the characters of the source, left to right.

use vstd::prelude::*;
use crate::text::{chars_of, is_blank, lemma_run_end, run_end, scan_run, string_of, trim_bounds, trimmed, alphabetic, CharClass};
use crate::lexer_proofs::{lemma_tokens_in_order, placed_not_after};
use crate::token::{token_views, Token, TokenType, TokenView};

verus! {

/// A token as a piece of the source: its kind and the positions of its first
/// character and of the first character after it.
pub ghost struct Lexeme {
    pub kind: TokenType,
    pub start: int,
    pub end: int,
}

/// The position after the first `stop` found from `i` on, or the end of the
/// text where there is none.
pub open spec fn closing_end(src: Seq<char>, i: int, stop: char) -> int {
    let k = run_end(src, i, CharClass::Until(stop));
    if k < src.len() {
        k + 1
    } else {
        k
    }
}

/// The token that starts at `i`, a position that holds no blank.
pub open spec fn lexeme_at(src: Seq<char>, i: int) -> Lexeme {
    let c = src[i];
    if c == ':' {
        Lexeme { kind: TokenType::Colon, start: i, end: i + 1 }
    } else if c == '|' {
        Lexeme { kind: TokenType::Pipe, start: i, end: i + 1 }
    } else if c == ';' {
        Lexeme { kind: TokenType::Semicolon, start: i, end: i + 1 }
    } else if c == '\'' || c == '"' {
        Lexeme { kind: TokenType::Literal, start: i, end: closing_end(src, i + 1, c) }
    } else if c == '%' {
        if i + 1 < src.len() && src[i + 1] == '%' {
            Lexeme { kind: TokenType::SectionSeparator, start: i, end: i + 2 }
        } else {
            Lexeme {
                kind: TokenType::BisonKeyword,
                start: i,
                end: run_end(src, i + 1, CharClass::Letter),
            }
        }
    } else if c == '{' {
        Lexeme { kind: TokenType::ActionBlock, start: i, end: closing_end(src, i + 1, '}') }
    } else if alphabetic(c) || c == '_' {
        Lexeme { kind: TokenType::Identifier, start: i, end: run_end(src, i + 1, CharClass::Word) }
    } else {
        Lexeme { kind: TokenType::Regex, start: i, end: run_end(src, i, CharClass::Pattern) }
    }
}

/// Where the text that a token carries starts: after the opening brace of
/// an action block, at the first character of every other token.
pub open spec fn text_start(l: Lexeme) -> int {
    if l.kind == TokenType::ActionBlock {
        l.start + 1
    } else {
        l.start
    }
}

/// Where the text that a token carries ends: at the first closing brace
/// after the opening brace of an action block, or at the end of the source
/// where there is none; at the end of every other token.
pub open spec fn text_end(src: Seq<char>, l: Lexeme) -> int {
    if l.kind == TokenType::ActionBlock {
        run_end(src, l.start + 1, CharClass::Until('}'))
    } else {
        l.end
    }
}

/// The text that a token carries. An action block carries what stands
/// between its braces, trimmed; every other token carries its piece of the
/// source as it is.
pub open spec fn lexeme_text(src: Seq<char>, l: Lexeme) -> Seq<char> {
    if l.kind == TokenType::ActionBlock {
        trimmed(src.subrange(text_start(l), text_end(src, l)))
    } else {
        src.subrange(text_start(l), text_end(src, l))
    }
}

/// The number of newlines before position `i`.
pub open spec fn newlines_before(src: Seq<char>, i: int) -> nat
    decreases i,
{
    if i <= 0 || i > src.len() {
        0
    } else if src[i - 1] == '\n' {
        newlines_before(src, i - 1) + 1
    } else {
        newlines_before(src, i - 1)
    }
}

/// The position at which the line of position `i` starts: after the last
/// newline before `i`, or 0.
pub open spec fn line_start(src: Seq<char>, i: int) -> int
    decreases i,
{
    if i <= 0 || i > src.len() {
        0
    } else if src[i - 1] == '\n' {
        i
    } else {
        line_start(src, i - 1)
    }
}

/// The 1-based line of position `i`.
pub open spec fn line_of(src: Seq<char>, i: int) -> nat {
    newlines_before(src, i) + 1
}

/// The 1-based column of position `i`.
pub open spec fn column_of(src: Seq<char>, i: int) -> nat {
    (i - line_start(src, i) + 1) as nat
}

/// The token that a piece of the source becomes.
pub open spec fn token_of(src: Seq<char>, l: Lexeme) -> TokenView {
    TokenView {
        kind: l.kind,
        text: lexeme_text(src, l),
        line: line_of(src, l.start),
        column: column_of(src, l.start),
    }
}

/// A token that starts inside the text ends after its first character and
/// inside the text.
pub proof fn lemma_lexeme_bounds(src: Seq<char>, i: int)
    requires
        0 <= i < src.len(),
        !is_blank(src[i]),
    ensures
        lexeme_at(src, i).start == i,
        i < lexeme_at(src, i).end <= src.len(),
{
    let c = src[i];
    lemma_run_end(src, i + 1, CharClass::Until(c));
    lemma_run_end(src, i + 1, CharClass::Until('}'));
    lemma_run_end(src, i + 1, CharClass::Letter);
    lemma_run_end(src, i + 1, CharClass::Word);
    lemma_run_end(src, i, CharClass::Pattern);
    if CharClass::Pattern.holds(c) {
        lemma_run_end(src, i + 1, CharClass::Pattern);
    }
}

/// The pieces that the source is cut into from position `i` on: blanks are
/// passed over, and each token starts where the one before it ended.
pub open spec fn lexemes_from(src: Seq<char>, i: int) -> Seq<Lexeme>
    decreases src.len() - i,
    via lexemes_from_decreases
{
    if i < 0 || i >= src.len() {
        Seq::empty()
    } else if is_blank(src[i]) {
        lexemes_from(src, i + 1)
    } else {
        seq![lexeme_at(src, i)] + lexemes_from(src, lexeme_at(src, i).end)
    }
}

#[via_fn]
proof fn lexemes_from_decreases(src: Seq<char>, i: int) {
    if 0 <= i < src.len() && !is_blank(src[i]) {
        lemma_lexeme_bounds(src, i);
    }
}

/// The tokens of the source from position `i` on.
pub open spec fn tokens_from(src: Seq<char>, i: int) -> Seq<TokenView> {
    lexemes_from(src, i).map_values(|l: Lexeme| token_of(src, l))
}

/// The tokens of a source text.
pub open spec fn tokens_of(src: Seq<char>) -> Seq<TokenView> {
    tokens_from(src, 0)
}

/// How `tokens_from` unfolds at a position inside the text.
pub proof fn lemma_tokens_from_step(src: Seq<char>, i: int)
    requires
        0 <= i < src.len(),
    ensures
        is_blank(src[i]) ==> tokens_from(src, i) == tokens_from(src, i + 1),
        !is_blank(src[i]) ==> tokens_from(src, i) == seq![token_of(src, lexeme_at(src, i))]
            + tokens_from(src, lexeme_at(src, i).end),
{
    if !is_blank(src[i]) {
        let l = lexeme_at(src, i);
    }
}

/// A position in the source with the number of newlines before it and the
/// start of its line.
#[derive(Clone, Copy, Debug)]
pub struct Place {
    pub offset: usize,
    pub newlines: usize,
    pub line_start: usize,
}

impl Place {
    /// Whether the place is a position of `src` with the right counts.
    pub open spec fn within(self, src: Seq<char>) -> bool {
        &&& self.offset <= src.len()
        &&& self.newlines == newlines_before(src, self.offset as int)
        &&& self.line_start == line_start(src, self.offset as int)
        &&& self.newlines <= self.offset
        &&& self.line_start <= self.offset
    }

    /// The place of the first character.
    pub fn origin() -> (r: Place)
        ensures
            r.offset == 0,
            forall|src: Seq<char>| r.within(src),
    {
        Place { offset: 0, newlines: 0, line_start: 0 }
    }

    /// Moves on to position `to`, counting the newlines on the way.
    pub fn move_to(self, src: &Vec<char>, to: usize) -> (r: Place)
        requires
            self.within(src@),
            self.offset <= to <= src@.len(),
        ensures
            r.within(src@),
            r.offset == to,
    {
        let mut place = self;
        while place.offset < to
            invariant
                place.within(src@),
                place.offset <= to <= src@.len(),
            decreases to - place.offset,
        {
            if src[place.offset] == '\n' {
                place = Place {
                    offset: place.offset + 1,
                    newlines: place.newlines + 1,
                    line_start: place.offset + 1,
                };
            } else {
                place = Place {
                    offset: place.offset + 1,
                    newlines: place.newlines,
                    line_start: place.line_start,
                };
            }
        }
        place
    }
}

/// What scanning one token finds: its kind, where it ends, and the bounds of
/// the text that it carries.
#[derive(Clone, Copy, Debug)]
pub struct Scanned {
    pub kind: TokenType,
    pub end: usize,
    pub text_from: usize,
    pub text_to: usize,
}

/// Scans from position `i` to the position after the first `stop`, and
/// returns the position of that `stop` (or the end) and the position after
/// it.
fn scan_closing(src: &Vec<char>, i: usize, stop: char) -> (r: (usize, usize))
    requires
        i <= src@.len(),
    ensures
        r.0 == run_end(src@, i as int, CharClass::Until(stop)),
        r.1 == closing_end(src@, i as int, stop),
        i <= r.0 <= r.1 <= src@.len(),
{
    let k: usize = scan_run(src, i, CharClass::Until(stop));
    if k < src.len() {
        (k, k + 1)
    } else {
        (k, k)
    }
}

/// Classifies the token that starts at `i` and finds its end.
pub fn scan_lexeme(src: &Vec<char>, i: usize) -> (r: Scanned)
    requires
        i < src@.len(),
        !is_blank(src@[i as int]),
    ensures
        r.kind == lexeme_at(src@, i as int).kind,
        r.end == lexeme_at(src@, i as int).end,
        i < r.end <= src@.len(),
        r.text_from == text_start(lexeme_at(src@, i as int)),
        r.text_to == text_end(src@, lexeme_at(src@, i as int)),
        r.text_from <= r.text_to <= src@.len(),
{
    proof {
        lemma_lexeme_bounds(src@, i as int);
    }
    let len: usize = src.len();
    let c = src[i];
    if c == ':' {
        Scanned { kind: TokenType::Colon, end: i + 1, text_from: i, text_to: i + 1 }
    } else if c == '|' {
        Scanned { kind: TokenType::Pipe, end: i + 1, text_from: i, text_to: i + 1 }
    } else if c == ';' {
        Scanned { kind: TokenType::Semicolon, end: i + 1, text_from: i, text_to: i + 1 }
    } else if c == '\'' || c == '"' {
        let (_, end) = scan_closing(src, i + 1, c);
        Scanned { kind: TokenType::Literal, end, text_from: i, text_to: end }
    } else if c == '%' {
        if i + 1 < len && src[i + 1] == '%' {
            Scanned { kind: TokenType::SectionSeparator, end: i + 2, text_from: i, text_to: i + 2 }
        } else {
            let end: usize = scan_run(src, i + 1, CharClass::Letter);
            Scanned { kind: TokenType::BisonKeyword, end, text_from: i, text_to: end }
        }
    } else if c == '{' {
        let (close, end) = scan_closing(src, i + 1, '}');
        Scanned { kind: TokenType::ActionBlock, end, text_from: i + 1, text_to: close }
    } else if c.is_alphabetic() || c == '_' {
        let end: usize = scan_run(src, i + 1, CharClass::Word);
        Scanned { kind: TokenType::Identifier, end, text_from: i, text_to: end }
    } else {
        let end: usize = scan_run(src, i, CharClass::Pattern);
        Scanned { kind: TokenType::Regex, end, text_from: i, text_to: end }
    }
}

/// Cuts a source text into its tokens.
///
/// Blanks (space, tab, carriage return, newline) separate tokens and are
/// never tokens themselves. Each token carries the line and the column of
/// its first character, both counted from 1; a newline inside a literal or
/// an action block counts like any other.
pub fn lexer(input: &str) -> (tokens: Vec<Token>)
    ensures
        token_views(tokens@) == tokens_of(input@),
        forall|a: int, b: int|
            0 <= a <= b < tokens@.len() ==> placed_not_after(
                (#[trigger] tokens@[a])@,
                (#[trigger] tokens@[b])@,
            ),
{
    let src = chars_of(input);
    let mut tokens: Vec<Token> = Vec::new();
    let mut place = Place::origin();
    while place.offset < src.len()
        invariant
            place.within(src@),
            token_views(tokens@) + tokens_from(src@, place.offset as int) == tokens_of(src@),
        decreases src@.len() - place.offset,
    {
        let i: usize = place.offset;
        let c = src[i];
        proof {
            lemma_tokens_from_step(src@, i as int);
        }
        if c == ' ' || c == '\t' || c == '\r' || c == '\n' {
            place = place.move_to(&src, i + 1);
        } else {
            let found = scan_lexeme(&src, i);
            let value = match found.kind {
                TokenType::ActionBlock => {
                    let (from, to) = trim_bounds(&src, found.text_from, found.text_to);
                    string_of(&src, from, to)
                },
                _ => string_of(&src, found.text_from, found.text_to),
            };
            let token = Token {
                token_type: found.kind,
                value,
                line: place.newlines + 1,
                column: i - place.line_start + 1,
            };
            tokens.push(token);
            place = place.move_to(&src, found.end);
        }
    }
    proof {
        lemma_tokens_in_order(src@);
        assert forall|a: int, b: int| 0 <= a <= b < tokens@.len() implies placed_not_after(
            (#[trigger] tokens@[a])@,
            (#[trigger] tokens@[b])@,
        ) by {
            assert(token_views(tokens@)[a] == tokens@[a]@);
            assert(token_views(tokens@)[b] == tokens@[b]@);
        }
    }
    tokens
}

/// Cuts a source text into its tokens: `lexer` under its other name.
pub fn scan_code(input: &str) -> (tokens: Vec<Token>)
    ensures
        token_views(tokens@) == tokens_of(input@),
        forall|a: int, b: int|
            0 <= a <= b < tokens@.len() ==> placed_not_after(
                (#[trigger] tokens@[a])@,
                (#[trigger] tokens@[b])@,
            ),
{
    lexer(input)
}

} // verus!
