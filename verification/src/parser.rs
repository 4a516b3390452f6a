//! The recursive-descent parser: one cursor over the tokens, moved from left
//! to right, with one token of lookahead.

use vstd::prelude::*;
use crate::ast::{lemma_view_of_children, optional_text, texts, trees, ASTNode, SyntaxTree};
use crate::lexer::{lexer, tokens_of};
use crate::syntax::{alternatives_from, declarations_from, error_at, error_message, grammar_file_from, lemma_alternatives_end, lemma_names_end, names_end, production_at, productions_from, rule_at, rule_file_from, rules_from, texts_between, token_keyword};
use crate::token::{token_views, Token, TokenType, TokenView};

verus! {

/// A parse error placed at `line` and `column`.
fn error_node(line: usize, column: usize) -> (node: ASTNode)
    ensures
        node@ == (SyntaxTree::Error {
            message: error_message(),
            line: line as nat,
            column: column as nat,
        }),
{
    ASTNode::Error { message: "Expected Regex Pattern".to_owned(), line, column }
}

/// A sequence of tokens and a cursor into it.
pub struct Parser {
    tokens: Vec<Token>,
    current: usize,
}

impl Parser {
    /// The cursor never leaves the tokens: it stands at one of them or right
    /// after the last.
    #[verifier::type_invariant]
    spec fn cursor_inside(&self) -> bool {
        self.current <= self.tokens@.len()
    }

    /// The tokens that the parser reads.
    pub closed spec fn tokens(&self) -> Seq<TokenView> {
        token_views(self.tokens@)
    }

    /// The position of the cursor: the number of tokens consumed.
    pub closed spec fn position(&self) -> int {
        self.current as int
    }

    /// A parser over `tokens` with the cursor at the first of them.
    pub fn new(tokens: Vec<Token>) -> (parser: Self)
        ensures
            parser.tokens() == token_views(tokens@),
            parser.position() == 0,
    {
        Self { tokens, current: 0 }
    }

    /// The token at the cursor, if the cursor is not past the last.
    fn peek(&self) -> (r: Option<&Token>)
        ensures
            0 <= self.position() <= self.tokens().len(),
            self.position() < self.tokens().len() ==> r is Some && r->0@
                == self.tokens()[self.position()],
            self.position() >= self.tokens().len() ==> r is None,
    {
        proof {
            use_type_invariant(self);
        }
        if self.current < self.tokens.len() {
            Some(&self.tokens[self.current])
        } else {
            None
        }
    }

    /// Moves the cursor forward by one token; past the last token it stays.
    fn advance(&mut self)
        ensures
            final(self).tokens() == old(self).tokens(),
            0 <= old(self).position() <= old(self).tokens().len(),
            old(self).position() < old(self).tokens().len() ==> final(self).position() == old(
                self,
            ).position() + 1,
            old(self).position() >= old(self).tokens().len() ==> final(self).position() == old(
                self,
            ).position(),
    {
        proof {
            use_type_invariant(&*self);
        }
        if self.current < self.tokens.len() {
            self.current += 1;
        }
    }

    /// A parse error placed at the token at the cursor, or at line 0,
    /// column 0 where the cursor is past the last token.
    fn error_here(&self) -> (node: ASTNode)
        ensures
            node@ == error_at(self.tokens(), self.position()),
    {
        match self.peek() {
            Some(t) => error_node(t.line, t.column),
            None => error_node(0, 0),
        }
    }

    /// Reads one scanner rule at the cursor, which stands at a token.
    fn parse_flex_rules(&mut self) -> (node: ASTNode)
        requires
            old(self).position() < old(self).tokens().len(),
        ensures
            final(self).tokens() == old(self).tokens(),
            node@ == rule_at(old(self).tokens(), old(self).position()).tree,
            final(self).position() == rule_at(old(self).tokens(), old(self).position()).next,
    {
        let pattern: Option<String> = match self.peek() {
            Some(t) => if t.token_type == TokenType::Regex || t.token_type
                == TokenType::Identifier {
                Some(t.value.clone())
            } else {
                None
            },
            None => None,
        };
        self.advance();
        let pattern = match pattern {
            Some(text) => text,
            None => {
                return self.error_here();
            },
        };
        let action: Option<String> = match self.peek() {
            Some(t) => if t.token_type == TokenType::ActionBlock {
                Some(t.value.clone())
            } else {
                None
            },
            None => None,
        };
        self.advance();
        match action {
            Some(text) => ASTNode::FlexRule { pattern, action: text },
            None => self.error_here(),
        }
    }

    /// Reads a file of scanner rules from the cursor to the last token.
    ///
    /// Each rule is a pattern and an action block; a rule that lacks either
    /// becomes an `Error` node in its place, and reading goes on after it.
    pub fn parse_flex_program(&mut self) -> (node: ASTNode)
        ensures
            final(self).tokens() == old(self).tokens(),
            final(self).position() == old(self).tokens().len(),
            node@ == rule_file_from(old(self).tokens(), old(self).position()),
    {
        proof {
            use_type_invariant(&*self);
        }
        let mut rules: Vec<ASTNode> = Vec::new();
        let ghost tokens = self.tokens();
        let ghost start = self.position();
        while self.current < self.tokens.len()
            invariant
                self.tokens() == tokens,
                0 <= self.position() <= tokens.len(),
                trees(rules@) + rules_from(tokens, self.position()) == rules_from(tokens, start),
            decreases tokens.len() - self.position(),
        {
            let separator = match self.peek() {
                Some(t) => t.token_type == TokenType::SectionSeparator,
                None => false,
            };
            if separator {
                self.advance();
            } else {
                let rule = self.parse_flex_rules();
                rules.push(rule);
            }
        }
        let node = ASTNode::FlexFile { rules };
        proof {
            lemma_view_of_children(node);
        }
        node
    }

    /// Reads the names that follow the token keyword: the run of identifiers
    /// at the cursor.
    fn parse_names(&mut self) -> (names: Vec<String>)
        ensures
            final(self).tokens() == old(self).tokens(),
            0 <= old(self).position() <= old(self).tokens().len(),
            final(self).position() == names_end(old(self).tokens(), old(self).position()),
            texts(names@) == texts_between(
                old(self).tokens(),
                old(self).position(),
                final(self).position(),
            ),
    {
        proof {
            use_type_invariant(&*self);
        }
        let mut names: Vec<String> = Vec::new();
        let ghost tokens = self.tokens();
        let ghost start = self.position();
        let mut more = true;
        while more
            invariant
                self.tokens() == tokens,
                0 <= start <= self.position() <= tokens.len(),
                names_end(tokens, self.position()) == names_end(tokens, start),
                texts(names@) == texts_between(tokens, start, self.position()),
                !more ==> names_end(tokens, self.position()) == self.position(),
            decreases tokens.len() - self.position() + (if more { 1int } else { 0int }),
        {
            let name: Option<String> = match self.peek() {
                Some(t) => if t.token_type == TokenType::Identifier {
                    Some(t.value.clone())
                } else {
                    None
                },
                None => None,
            };
            match name {
                Some(text) => {
                    let ghost at = self.position();
                    names.push(text);
                    self.advance();
                    assert(texts_between(tokens, start, at + 1) =~= texts_between(
                        tokens,
                        start,
                        at,
                    ).push(tokens[at].text));
                },
                None => {
                    more = false;
                },
            }
        }
        names
    }

    /// Reads one production at the cursor, which stands at an identifier.
    fn parse_bison_rule(&mut self) -> (node: ASTNode)
        requires
            old(self).position() < old(self).tokens().len(),
            old(self).tokens()[old(self).position()].kind == TokenType::Identifier,
        ensures
            final(self).tokens() == old(self).tokens(),
            node@ == production_at(old(self).tokens(), old(self).position()).tree,
            final(self).position() == production_at(old(self).tokens(), old(self).position()).next,
            old(self).position() < final(self).position() <= old(self).tokens().len(),
    {
        let ghost tokens = self.tokens();
        let (name, line, column) = match self.peek() {
            Some(t) => (t.value.clone(), t.line, t.column),
            None => (String::new(), 0, 0),
        };
        self.advance();
        let colon = match self.peek() {
            Some(t) => t.token_type == TokenType::Colon,
            None => {
                return error_node(line, column);
            },
        };
        if !colon {
            let node = self.error_here();
            self.advance();
            return node;
        }
        self.advance();
        let mut alternatives: Vec<ASTNode> = Vec::new();
        let mut symbols: Vec<String> = Vec::new();
        let mut action: Option<String> = None;
        let mut open = true;
        let ghost start = self.position();
        let ghost target = alternatives_from(tokens, start, Seq::empty(), None);
        proof {
            lemma_alternatives_end(tokens, start, Seq::empty(), None);
            assert(texts(symbols@) =~= Seq::<Seq<char>>::empty());
        }
        while open
            invariant
                self.tokens() == tokens,
                0 <= start <= self.position() <= tokens.len(),
                open ==> target.next == alternatives_from(
                    tokens,
                    self.position(),
                    texts(symbols@),
                    optional_text(action),
                ).next,
                open ==> target.trees == trees(alternatives@) + alternatives_from(
                    tokens,
                    self.position(),
                    texts(symbols@),
                    optional_text(action),
                ).trees,
                !open ==> target.next == self.position(),
                !open ==> target.trees == trees(alternatives@),
            decreases tokens.len() - self.position() + (if open { 1int } else { 0int }),
        {
            let ghost at = self.position();
            let ghost held = texts(symbols@);
            match self.peek() {
                None => {
                    open = false;
                },
                Some(t) => match t.token_type {
                    TokenType::Identifier | TokenType::Literal => {
                        symbols.push(t.value.clone());
                        assert(texts(symbols@) =~= held.push(tokens[at].text));
                    },
                    TokenType::ActionBlock => {
                        action = Some(t.value.clone());
                    },
                    TokenType::Pipe => {
                        let alternative = ASTNode::BisonAlternative { symbols, action };
                        alternatives.push(alternative);
                        symbols = Vec::new();
                        action = None;
                        assert(texts(symbols@) =~= Seq::<Seq<char>>::empty());
                    },
                    TokenType::Semicolon => {
                        let alternative = ASTNode::BisonAlternative { symbols, action };
                        alternatives.push(alternative);
                        symbols = Vec::new();
                        action = None;
                        open = false;
                    },
                    _ => {},
                },
            }
            self.advance();
        }
        let node = ASTNode::BisonGrammarRule { name, alternatives };
        proof {
            lemma_view_of_children(node);
        }
        node
    }

    /// Reads a grammar file from the cursor to the last token.
    ///
    /// The declarations section comes first and ends with the first section
    /// separator; in it only declarations of token names are recorded. The
    /// productions section follows; a production that lacks its colon
    /// becomes an `Error` node in its place, and reading goes on after it.
    pub fn parse_bison_program(&mut self) -> (node: ASTNode)
        ensures
            final(self).tokens() == old(self).tokens(),
            final(self).position() == old(self).tokens().len(),
            node@ == grammar_file_from(old(self).tokens(), old(self).position()),
    {
        proof {
            use_type_invariant(&*self);
        }
        let keyword: String = "%token".to_owned();
        let mut declarations: Vec<ASTNode> = Vec::new();
        let mut rules: Vec<ASTNode> = Vec::new();
        let ghost tokens = self.tokens();
        let ghost start = self.position();
        let ghost target = declarations_from(tokens, start);
        let mut open = true;
        while open
            invariant
                self.tokens() == tokens,
                keyword@ == token_keyword(),
                0 <= self.position() <= tokens.len(),
                open ==> target.next == declarations_from(tokens, self.position()).next,
                open ==> target.trees == trees(declarations@) + declarations_from(
                    tokens,
                    self.position(),
                ).trees,
                !open ==> target.next == self.position(),
                !open ==> target.trees == trees(declarations@),
            decreases tokens.len() - self.position() + (if open { 1int } else { 0int }),
        {
            let ghost at = self.position();
            let found: Option<bool> = match self.peek() {
                None => None,
                Some(t) => if t.token_type == TokenType::SectionSeparator {
                    None
                } else {
                    Some(t.token_type == TokenType::BisonKeyword && t.value == keyword)
                },
            };
            match found {
                None => {
                    self.advance();
                    open = false;
                },
                Some(true) => {
                    self.advance();
                    let names = self.parse_names();
                    let declaration = ASTNode::BisonTokenDecl { names };
                    declarations.push(declaration);
                    proof {
                        lemma_names_end(tokens, at + 1);
                    }
                },
                Some(false) => {
                    self.advance();
                },
            }
        }
        let ghost middle = self.position();
        while self.current < self.tokens.len()
            invariant
                self.tokens() == tokens,
                0 <= self.position() <= tokens.len(),
                trees(rules@) + productions_from(tokens, self.position()) == productions_from(
                    tokens,
                    middle,
                ),
            decreases tokens.len() - self.position(),
        {
            let named = match self.peek() {
                Some(t) => t.token_type == TokenType::Identifier,
                None => false,
            };
            if named {
                let rule = self.parse_bison_rule();
                rules.push(rule);
            } else {
                self.advance();
            }
        }
        let node = ASTNode::BisonFile { declarations, rules };
        proof {
            lemma_view_of_children(node);
        }
        node
    }
}

/// The tree of a source text read as a file of scanner rules.
pub open spec fn rule_file_of(source: Seq<char>) -> SyntaxTree {
    rule_file_from(tokens_of(source), 0)
}

/// The tree of a source text read as a grammar file.
pub open spec fn grammar_file_of(source: Seq<char>) -> SyntaxTree {
    grammar_file_from(tokens_of(source), 0)
}

/// Tokenizes a source text and reads it as a file of scanner rules.
pub fn parse_flex(input: &str) -> (node: ASTNode)
    ensures
        node@ == rule_file_of(input@),
{
    let tokens = lexer(input);
    let mut parser = Parser::new(tokens);
    parser.parse_flex_program()
}

/// Tokenizes a source text and reads it as a grammar file.
pub fn parse_bison(input: &str) -> (node: ASTNode)
    ensures
        node@ == grammar_file_of(input@),
{
    let tokens = lexer(input);
    let mut parser = Parser::new(tokens);
    parser.parse_bison_program()
}

/// The selector of the grammar dialect.
pub open spec fn grammar_selector() -> Seq<char> {
    "grammar-file"@
}

/// The tree of a source text read in the dialect that `dialect` selects:
/// as a grammar file where it is the grammar selector, as a file of scanner
/// rules for every other value.
pub open spec fn tree_of(source: Seq<char>, dialect: Seq<char>) -> SyntaxTree {
    if dialect == grammar_selector() {
        grammar_file_of(source)
    } else {
        rule_file_of(source)
    }
}

/// Tokenizes a source text and reads it in the dialect that `dialect`
/// selects: `"grammar-file"` for a grammar file; every other value, with
/// `"rule-file"` among them, for a file of scanner rules.
pub fn parse(source: &str, dialect: &str) -> (node: ASTNode)
    ensures
        node@ == tree_of(source@, dialect@),
{
    let chosen: String = dialect.to_owned();
    let grammar: String = "grammar-file".to_owned();
    if chosen == grammar {
        parse_bison(source)
    } else {
        parse_flex(source)
    }
}

} // verus!
