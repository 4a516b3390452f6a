//! What the two dialects mean: the syntax tree of a sequence of tokens.

use vstd::prelude::*;
use crate::ast::SyntaxTree;
use crate::token::{TokenType, TokenView};

verus! {

/// The message that every parse error carries.
pub open spec fn error_message() -> Seq<char> {
    "Expected Regex Pattern"@
}

/// The keyword that opens a declaration of token names.
pub open spec fn token_keyword() -> Seq<char> {
    "%token"@
}

/// A tree read from the tokens and the position of the first token after it.
pub ghost struct Parsed {
    pub tree: SyntaxTree,
    pub next: int,
}

/// A sequence of trees read from the tokens and the position of the first
/// token after them.
pub ghost struct ParsedList {
    pub trees: Seq<SyntaxTree>,
    pub next: int,
}

/// The parse error placed at token `i`, or at line 0, column 0 where the
/// tokens end before `i`.
pub open spec fn error_at(tokens: Seq<TokenView>, i: int) -> SyntaxTree {
    if 0 <= i < tokens.len() {
        SyntaxTree::Error { message: error_message(), line: tokens[i].line, column: tokens[i].column }
    } else {
        SyntaxTree::Error { message: error_message(), line: 0, column: 0 }
    }
}

/// The scanner rule that starts at token `i`: a pattern (pattern text or an
/// identifier) and then an action block. Where the first token is no
/// pattern, it alone is consumed; where the second is no action block, both
/// are. Either way the error is placed at the token that follows what was
/// consumed.
pub open spec fn rule_at(tokens: Seq<TokenView>, i: int) -> Parsed {
    if !(tokens[i].kind == TokenType::Regex || tokens[i].kind == TokenType::Identifier) {
        Parsed { tree: error_at(tokens, i + 1), next: i + 1 }
    } else if i + 1 >= tokens.len() {
        Parsed { tree: error_at(tokens, i + 1), next: i + 1 }
    } else if tokens[i + 1].kind == TokenType::ActionBlock {
        Parsed {
            tree: SyntaxTree::FlexRule { pattern: tokens[i].text, action: tokens[i + 1].text },
            next: i + 2,
        }
    } else {
        Parsed { tree: error_at(tokens, i + 2), next: i + 2 }
    }
}

/// The scanner rules from token `i` on. Section separators are passed over.
pub open spec fn rules_from(tokens: Seq<TokenView>, i: int) -> Seq<SyntaxTree>
    decreases tokens.len() - i,
{
    if i < 0 || i >= tokens.len() {
        Seq::empty()
    } else if tokens[i].kind == TokenType::SectionSeparator {
        rules_from(tokens, i + 1)
    } else {
        seq![rule_at(tokens, i).tree] + rules_from(tokens, rule_at(tokens, i).next)
    }
}

/// The tree of a file of scanner rules, read from token `i` on.
pub open spec fn rule_file_from(tokens: Seq<TokenView>, i: int) -> SyntaxTree {
    SyntaxTree::FlexFile { rules: rules_from(tokens, i) }
}

/// The end of the run of identifiers that starts at token `i`.
pub open spec fn names_end(tokens: Seq<TokenView>, i: int) -> int
    decreases tokens.len() - i,
{
    if 0 <= i < tokens.len() && tokens[i].kind == TokenType::Identifier {
        names_end(tokens, i + 1)
    } else {
        i
    }
}

/// The texts of the tokens from `i` up to `j`.
pub open spec fn texts_between(tokens: Seq<TokenView>, i: int, j: int) -> Seq<Seq<char>> {
    tokens.subrange(i, j).map_values(|t: TokenView| t.text)
}

/// `names_end` lies between `i` and the end of the tokens.
pub proof fn lemma_names_end(tokens: Seq<TokenView>, i: int)
    requires
        0 <= i <= tokens.len(),
    ensures
        i <= names_end(tokens, i) <= tokens.len(),
    decreases tokens.len() - i,
{
    if i < tokens.len() && tokens[i].kind == TokenType::Identifier {
        lemma_names_end(tokens, i + 1);
    }
}

/// Whether token `i` opens a declaration of token names.
pub open spec fn opens_declaration(tokens: Seq<TokenView>, i: int) -> bool {
    tokens[i].kind == TokenType::BisonKeyword && tokens[i].text == token_keyword()
}

/// The declarations section from token `i` on. It ends with the first
/// section separator, which is consumed, or with the tokens. The token
/// keyword declares the run of identifiers that follows it; every other
/// token is passed over.
pub open spec fn declarations_from(tokens: Seq<TokenView>, i: int) -> ParsedList
    decreases tokens.len() - i,
    via declarations_from_decreases
{
    if i < 0 || i >= tokens.len() {
        ParsedList { trees: Seq::empty(), next: i }
    } else if tokens[i].kind == TokenType::SectionSeparator {
        ParsedList { trees: Seq::empty(), next: i + 1 }
    } else if opens_declaration(tokens, i) {
        let end = names_end(tokens, i + 1);
        let rest = declarations_from(tokens, end);
        ParsedList {
            trees: seq![
                SyntaxTree::BisonTokenDecl { names: texts_between(tokens, i + 1, end) },
            ] + rest.trees,
            next: rest.next,
        }
    } else {
        declarations_from(tokens, i + 1)
    }
}

#[via_fn]
proof fn declarations_from_decreases(tokens: Seq<TokenView>, i: int) {
    if 0 <= i < tokens.len() {
        lemma_names_end(tokens, i + 1);
    }
}

/// The alternatives of a production from token `i` on, where `symbols` and
/// `action` are what the alternative that is being read holds so far.
/// Identifiers and literals are its symbols; an action block is its action,
/// the last one where there are several. A pipe closes the alternative and
/// opens the next; a semicolon closes it and ends the production. Other
/// tokens are passed over. An alternative that is still open where the
/// tokens end is not recorded.
pub open spec fn alternatives_from(
    tokens: Seq<TokenView>,
    i: int,
    symbols: Seq<Seq<char>>,
    action: Option<Seq<char>>,
) -> ParsedList
    decreases tokens.len() - i,
{
    if i < 0 || i >= tokens.len() {
        ParsedList { trees: Seq::empty(), next: i }
    } else {
        match tokens[i].kind {
            TokenType::Identifier | TokenType::Literal => alternatives_from(
                tokens,
                i + 1,
                symbols.push(tokens[i].text),
                action,
            ),
            TokenType::ActionBlock => alternatives_from(
                tokens,
                i + 1,
                symbols,
                Some(tokens[i].text),
            ),
            TokenType::Pipe => {
                let rest = alternatives_from(tokens, i + 1, Seq::empty(), None);
                ParsedList {
                    trees: seq![SyntaxTree::BisonAlternative { symbols, action }] + rest.trees,
                    next: rest.next,
                }
            },
            TokenType::Semicolon => ParsedList {
                trees: seq![SyntaxTree::BisonAlternative { symbols, action }],
                next: i + 1,
            },
            _ => alternatives_from(tokens, i + 1, symbols, action),
        }
    }
}

/// The alternatives end after the position that they start at and inside the
/// tokens.
pub proof fn lemma_alternatives_end(
    tokens: Seq<TokenView>,
    i: int,
    symbols: Seq<Seq<char>>,
    action: Option<Seq<char>>,
)
    requires
        0 <= i <= tokens.len(),
    ensures
        i <= alternatives_from(tokens, i, symbols, action).next <= tokens.len(),
    decreases tokens.len() - i,
{
    if i < tokens.len() {
        match tokens[i].kind {
            TokenType::Identifier | TokenType::Literal => {
                lemma_alternatives_end(tokens, i + 1, symbols.push(tokens[i].text), action);
            },
            TokenType::ActionBlock => {
                lemma_alternatives_end(tokens, i + 1, symbols, Some(tokens[i].text));
            },
            TokenType::Pipe => {
                lemma_alternatives_end(tokens, i + 1, Seq::empty(), None);
            },
            TokenType::Semicolon => {},
            _ => {
                lemma_alternatives_end(tokens, i + 1, symbols, action);
            },
        }
    }
}

/// The production that starts at token `i`, an identifier: its name, a
/// colon, and its alternatives. Where the token after the name is no colon,
/// both are consumed and the result is a parse error placed at that token;
/// where the name is the last token, the error is placed at the name.
pub open spec fn production_at(tokens: Seq<TokenView>, i: int) -> Parsed {
    if i + 1 >= tokens.len() {
        Parsed { tree: error_at(tokens, i), next: i + 1 }
    } else if tokens[i + 1].kind != TokenType::Colon {
        Parsed { tree: error_at(tokens, i + 1), next: i + 2 }
    } else {
        let alternatives = alternatives_from(tokens, i + 2, Seq::empty(), None);
        Parsed {
            tree: SyntaxTree::BisonGrammarRule {
                name: tokens[i].text,
                alternatives: alternatives.trees,
            },
            next: alternatives.next,
        }
    }
}

/// The productions section from token `i` on: a production wherever an
/// identifier stands; every other token is passed over.
pub open spec fn productions_from(tokens: Seq<TokenView>, i: int) -> Seq<SyntaxTree>
    decreases tokens.len() - i,
    via productions_from_decreases
{
    if i < 0 || i >= tokens.len() {
        Seq::empty()
    } else if tokens[i].kind == TokenType::Identifier {
        seq![production_at(tokens, i).tree] + productions_from(
            tokens,
            production_at(tokens, i).next,
        )
    } else {
        productions_from(tokens, i + 1)
    }
}

#[via_fn]
proof fn productions_from_decreases(tokens: Seq<TokenView>, i: int) {
    if 0 <= i < tokens.len() && i + 2 <= tokens.len() {
        lemma_alternatives_end(tokens, i + 2, Seq::empty(), None);
    }
}

/// The tree of a grammar file, read from token `i` on: the declarations
/// section, then the productions section.
pub open spec fn grammar_file_from(tokens: Seq<TokenView>, i: int) -> SyntaxTree {
    let declarations = declarations_from(tokens, i);
    SyntaxTree::BisonFile {
        declarations: declarations.trees,
        rules: productions_from(tokens, declarations.next),
    }
}

} // verus!
