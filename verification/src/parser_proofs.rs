//! What holds of the syntax tree of every sequence of tokens.

use vstd::prelude::*;
use crate::ast::SyntaxTree;
use crate::parser::tree_of;
use crate::syntax::{alternatives_from, declarations_from, grammar_file_from, lemma_alternatives_end, lemma_names_end, names_end, opens_declaration, production_at, productions_from, rule_at, rule_file_from, rules_from};
use crate::token::{TokenType, TokenView};

verus! {

/// Whether every tree of `trees` is a scanner rule or a parse error.
pub open spec fn all_rules(trees: Seq<SyntaxTree>) -> bool {
    forall|k: int| 0 <= k < trees.len() ==> (#[trigger] trees[k]) is FlexRule || trees[k] is Error
}

/// Whether every tree of `trees` is a declaration of token names.
pub open spec fn all_declarations(trees: Seq<SyntaxTree>) -> bool {
    forall|k: int| 0 <= k < trees.len() ==> (#[trigger] trees[k]) is BisonTokenDecl
}

/// Whether every tree of `trees` is an alternative.
pub open spec fn all_alternatives(trees: Seq<SyntaxTree>) -> bool {
    forall|k: int| 0 <= k < trees.len() ==> (#[trigger] trees[k]) is BisonAlternative
}

/// Whether `tree` is a production whose children are alternatives, or a
/// parse error.
pub open spec fn is_production(tree: SyntaxTree) -> bool {
    match tree {
        SyntaxTree::BisonGrammarRule { name, alternatives } => all_alternatives(alternatives),
        SyntaxTree::Error { .. } => true,
        _ => false,
    }
}

/// Whether every tree of `trees` is a production or a parse error.
pub open spec fn all_productions(trees: Seq<SyntaxTree>) -> bool {
    forall|k: int| 0 <= k < trees.len() ==> is_production(#[trigger] trees[k])
}

/// A file of scanner rules holds nothing but rules and parse errors.
pub proof fn lemma_rule_file_shape(tokens: Seq<TokenView>, i: int)
    requires
        0 <= i <= tokens.len(),
    ensures
        all_rules(rules_from(tokens, i)),
        rule_file_from(tokens, i) is FlexFile,
    decreases tokens.len() - i,
{
    if i < tokens.len() {
        if tokens[i].kind == TokenType::SectionSeparator {
            lemma_rule_file_shape(tokens, i + 1);
        } else {
            let first = rule_at(tokens, i);
            lemma_rule_file_shape(tokens, first.next);
        }
    }
}

/// The alternatives of a production are alternatives and nothing else, and
/// there is at least one of them unless the tokens ended before the
/// semicolon of the production.
pub proof fn lemma_alternatives_shape(
    tokens: Seq<TokenView>,
    i: int,
    symbols: Seq<Seq<char>>,
    action: Option<Seq<char>>,
)
    requires
        0 <= i <= tokens.len(),
    ensures
        all_alternatives(alternatives_from(tokens, i, symbols, action).trees),
        alternatives_from(tokens, i, symbols, action).trees.len() == 0 ==> alternatives_from(
            tokens,
            i,
            symbols,
            action,
        ).next == tokens.len(),
    decreases tokens.len() - i,
{
    if i < tokens.len() {
        match tokens[i].kind {
            TokenType::Identifier | TokenType::Literal => {
                lemma_alternatives_shape(tokens, i + 1, symbols.push(tokens[i].text), action);
            },
            TokenType::ActionBlock => {
                lemma_alternatives_shape(tokens, i + 1, symbols, Some(tokens[i].text));
            },
            TokenType::Pipe => {
                lemma_alternatives_shape(tokens, i + 1, Seq::empty(), None);
            },
            TokenType::Semicolon => {},
            _ => {
                lemma_alternatives_shape(tokens, i + 1, symbols, action);
            },
        }
    }
}

/// The declarations section holds nothing but declarations of token names,
/// and it ends inside the tokens.
pub proof fn lemma_declarations_shape(tokens: Seq<TokenView>, i: int)
    requires
        0 <= i <= tokens.len(),
    ensures
        all_declarations(declarations_from(tokens, i).trees),
        i <= declarations_from(tokens, i).next <= tokens.len(),
    decreases tokens.len() - i,
{
    if i < tokens.len() {
        if tokens[i].kind == TokenType::SectionSeparator {
        } else if opens_declaration(tokens, i) {
            let end = names_end(tokens, i + 1);
            lemma_names_end(tokens, i + 1);
            lemma_declarations_shape(tokens, end);
        } else {
            lemma_declarations_shape(tokens, i + 1);
        }
    }
}

/// The productions section holds nothing but productions and parse errors.
pub proof fn lemma_productions_shape(tokens: Seq<TokenView>, i: int)
    requires
        0 <= i <= tokens.len(),
    ensures
        all_productions(productions_from(tokens, i)),
    decreases tokens.len() - i,
{
    if i < tokens.len() {
        if tokens[i].kind == TokenType::Identifier {
            let first = production_at(tokens, i);
            if i + 2 <= tokens.len() {
                lemma_alternatives_end(tokens, i + 2, Seq::empty(), None);
                lemma_alternatives_shape(tokens, i + 2, Seq::empty(), None);
            }
            lemma_productions_shape(tokens, first.next);
        } else {
            lemma_productions_shape(tokens, i + 1);
        }
    }
}

/// A grammar file keeps its two sections apart: its declarations are
/// declarations of token names, its rules are productions or parse errors,
/// and the children of a production are alternatives.
pub proof fn lemma_grammar_file_shape(tokens: Seq<TokenView>, i: int)
    requires
        0 <= i <= tokens.len(),
    ensures
        grammar_file_from(tokens, i) is BisonFile,
        all_declarations(grammar_file_from(tokens, i)->declarations),
        all_productions(grammar_file_from(tokens, i)->BisonFile_rules),
{
    lemma_declarations_shape(tokens, i);
    lemma_productions_shape(tokens, declarations_from(tokens, i).next);
}

/// Parsing has no memory: whatever two runs on the same text and the same
/// dialect return stands for the same tree.
pub proof fn lemma_parse_is_repeatable(
    source: Seq<char>,
    dialect: Seq<char>,
    first: SyntaxTree,
    second: SyntaxTree,
)
    requires
        first == tree_of(source, dialect),
        second == tree_of(source, dialect),
    ensures
        first == second,
{
}

} // verus!
