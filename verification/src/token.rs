//! Token categories and the token record produced by the lexer.

use vstd::prelude::*;

verus! {

/// The lexical category of a token.
#[derive(Debug, Clone, Copy, PartialEq, Eq, Hash, Structural)]
pub enum TokenType {
    Ident,
    Atkeyword,
    String,
    BadString,
    BadUri,
    BadComment,
    Hash,
    Number,
    Percentage,
    Dimension,
    Uri,
    UnicodeRange,
    Cdo,
    Cdc,
    Colon,
    Semicolon,
    CurlyLeft,
    CurlyRight,
    ParenLeft,
    ParenRight,
    BracketLeft,
    BracketRight,
    S,
    Comment,
    Function,
    Includes,
    DashMatch,
    Delim,
    Eof,
    ClassSelector,
    IdSelector,
    PseudoClassSelector,
    PseudoElementSelector,
    Comma,
    Plus,
    Greater,
    Tilde,
}

/// The mathematical content of a token: its category, its text and the
/// line on which it starts.
pub struct TokenView {
    pub kind: TokenType,
    pub text: Seq<char>,
    pub line: nat,
}

/// A token: category, raw lexeme and source line.
#[derive(Debug)]
pub struct Token {
    pub token_type: TokenType,
    pub lexeme: String,
    pub line: usize,
}

impl View for Token {
    type V = TokenView;

    open spec fn view(&self) -> TokenView {
        TokenView { kind: self.token_type, text: self.lexeme@, line: self.line as nat }
    }
}

impl Clone for Token {
    fn clone(&self) -> (res: Self)
        ensures
            res == *self,
    {
        Token { token_type: self.token_type, lexeme: self.lexeme.clone(), line: self.line }
    }
}

impl Token {
    /// Builds a token from its three parts.
    pub fn new(token_type: TokenType, lexeme: String, line: usize) -> (token: Self)
        ensures
            token.token_type == token_type,
            token.lexeme == lexeme,
            token.line == line,
    {
        Token { token_type, lexeme, line }
    }

    /// Tokens carry their lexeme as raw text; there is nothing further to
    /// decode, so the token is left as it is.
    pub fn parse(&mut self)
        ensures
            *final(self) == *old(self),
    {
    }
}

/// The views of a sequence of tokens, in order.
pub open spec fn token_views(tokens: Seq<Token>) -> Seq<TokenView> {
    tokens.map_values(|t: Token| t@)
}

} // verus!
