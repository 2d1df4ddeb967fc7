//! The ways in which parsing fails.

use crate::token::TokenType;
use vstd::prelude::*;

verus! {

/// What the parser was looking for when it met a token it could not use.
#[derive(Debug, Clone, Copy, PartialEq, Eq, Structural)]
pub enum Expected {
    /// A token of this one category.
    Category(TokenType),
    /// The first token of a simple selector.
    SimpleSelector,
    /// A token that is a value.
    Value,
}

impl Expected {
    /// True when a token of category `kind` would have been accepted.
    pub open spec fn admits(self, kind: TokenType) -> bool {
        match self {
            Expected::Category(wanted) => kind == wanted,
            Expected::SimpleSelector => {
                kind == TokenType::Ident || kind == TokenType::ClassSelector || kind
                    == TokenType::IdSelector || kind == TokenType::PseudoClassSelector || kind
                    == TokenType::PseudoElementSelector
            },
            Expected::Value => {
                kind == TokenType::Ident || kind == TokenType::Number || kind
                    == TokenType::Percentage || kind == TokenType::Dimension
            },
        }
    }

    /// Tests whether a token of category `kind` would have been accepted.
    pub fn accepts(&self, kind: TokenType) -> (r: bool)
        ensures
            r == self.admits(kind),
    {
        match self {
            Expected::Category(wanted) => kind == *wanted,
            Expected::SimpleSelector => {
                kind == TokenType::Ident || kind == TokenType::ClassSelector || kind
                    == TokenType::IdSelector || kind == TokenType::PseudoClassSelector || kind
                    == TokenType::PseudoElementSelector
            },
            Expected::Value => {
                kind == TokenType::Ident || kind == TokenType::Number || kind
                    == TokenType::Percentage || kind == TokenType::Dimension
            },
        }
    }
}

/// A construct that the lexer recognises and the parser refuses.
#[derive(Debug, Clone, Copy, PartialEq, Eq, Structural)]
pub enum UnsupportedKind {
    MediaRule,
    FunctionValue,
    StringValue,
    UrlValue,
    ColorValue,
}

/// A byte of the source at which no lexical category matched, with the line
/// and the byte offset as mathematical numbers.
pub struct UnrecognizedView {
    pub line: nat,
    pub offset: nat,
}

/// A byte of the source at which no lexical category matched. The lexer
/// skips such a byte and records it: `line` is the line on which it stands,
/// `offset` its byte offset in the source.
#[derive(Debug, Clone, Copy, PartialEq, Eq, Structural)]
pub struct UnrecognizedCharacter {
    pub line: usize,
    pub offset: usize,
}

impl View for UnrecognizedCharacter {
    type V = UnrecognizedView;

    open spec fn view(&self) -> UnrecognizedView {
        UnrecognizedView { line: self.line as nat, offset: self.offset as nat }
    }
}

/// The views of a sequence of records, in order.
pub open spec fn unrecognized_views(items: Seq<UnrecognizedCharacter>) -> Seq<UnrecognizedView> {
    items.map_values(|u: UnrecognizedCharacter| u@)
}

/// A parse failure, with lines as mathematical numbers.
pub enum ParseFailure {
    UnexpectedToken { expected: Expected, found: TokenType, line: nat },
    UnsupportedConstruct { kind: UnsupportedKind, line: nat },
    UnexpectedEndOfInput,
}

/// Why parsing stopped. Parsing stops at the first failure.
#[derive(Debug, Clone, Copy, PartialEq, Eq, Structural)]
pub enum ParseError {
    /// A token of category `found` stood on line `line` where `expected`
    /// was needed.
    UnexpectedToken { expected: Expected, found: TokenType, line: usize },
    /// A construct of kind `kind` began on line `line`.
    UnsupportedConstruct { kind: UnsupportedKind, line: usize },
    /// The input ended inside a construct.
    UnexpectedEndOfInput,
}

impl View for ParseError {
    type V = ParseFailure;

    open spec fn view(&self) -> ParseFailure {
        match *self {
            ParseError::UnexpectedToken { expected, found, line } => ParseFailure::UnexpectedToken {
                expected,
                found,
                line: line as nat,
            },
            ParseError::UnsupportedConstruct { kind, line } => ParseFailure::UnsupportedConstruct {
                kind,
                line: line as nat,
            },
            ParseError::UnexpectedEndOfInput => ParseFailure::UnexpectedEndOfInput,
        }
    }
}

} // verus!
