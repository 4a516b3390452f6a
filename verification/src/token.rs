//! Lexical tokens and their mathematical view.

use vstd::prelude::*;

verus! {

/// The category of a lexical token.
#[derive(Clone, Copy, Debug, PartialEq, Eq, Structural)]
pub enum TokenType {
    /// The two-character marker `%%`.
    SectionSeparator,
    /// The text between `{` and the next `}`, trimmed.
    ActionBlock,
    /// `%` followed by letters, such as `%token`.
    BisonKeyword,
    /// A letter or `_` followed by letters, digits and `_`.
    Identifier,
    /// A quoted literal, quotes included.
    Literal,
    /// Free-form pattern text.
    Regex,
    Colon,
    Pipe,
    Semicolon,
    /// Never produced by the tokenizer.
    Whitespace,
    /// Never produced by the tokenizer.
    Unknown,
}

/// A classified piece of the source with the place of its first character.
#[derive(Clone, Debug)]
pub struct Token {
    pub token_type: TokenType,
    pub value: String,
    /// 1-based line of the first character.
    pub line: usize,
    /// 1-based column of the first character.
    pub column: usize,
}

/// What a `Token` stands for in contracts.
pub ghost struct TokenView {
    pub kind: TokenType,
    pub text: Seq<char>,
    pub line: nat,
    pub column: nat,
}

impl View for Token {
    type V = TokenView;

    open spec fn view(&self) -> TokenView {
        TokenView {
            kind: self.token_type,
            text: self.value@,
            line: self.line as nat,
            column: self.column as nat,
        }
    }
}

/// The views of a sequence of tokens, in order.
pub open spec fn token_views(tokens: Seq<Token>) -> Seq<TokenView> {
    tokens.map_values(|t: Token| t@)
}

} // verus!
