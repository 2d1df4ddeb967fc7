//! A small CSS front end: a lexer, a recursive-descent parser and a lowering
//! pass that flattens the syntax tree into ordered rules of plain strings.
//!
//! ```text
//! source text -> Lexer -> tokens -> Parser -> syntax tree -> HIRGenerator -> HIR
//! ```

pub mod ast;
pub mod error;
pub mod generator;
pub mod hir;
pub mod import;
pub mod laws;
pub mod lexer;
pub mod lexical;
pub mod parser;
pub mod scanner;
pub mod syntax;
pub mod text;
pub mod token;

use crate::error::{ParseError, ParseFailure};
use crate::hir::{lower, HIRGenerator, HIRView, HIR};
use crate::lexer::Lexer;
use crate::lexical::lex;
use crate::parser::Parser;
use crate::syntax::stylesheet;
use vstd::prelude::*;
use vstd::string::*;

verus! {

/// What a source text with the UTF-8 bytes `source` comes to: the tokens of
/// the text, parsed as a style sheet, lowered; or the first failure.
pub open spec fn css_info(source: Seq<u8>) -> Result<HIRView, ParseFailure> {
    match stylesheet(lex(source), 0).result {
        Ok(sheet) => Ok(lower(sheet)),
        Err(failure) => Err(failure),
    }
}

/// Transforms a source text into its flattened rules. The whole
/// transformation stops at the first failure.
pub fn get_css_info(code: &str) -> (r: Result<HIR, ParseError>)
    requires
        code.spec_bytes().len() < usize::MAX,
    ensures
        css_info(code.spec_bytes()) == match r {
            Ok(hir) => Ok::<HIRView, ParseFailure>(hir@),
            Err(e) => Err(e@),
        },
{
    let mut lexer = Lexer::new(code.to_owned());
    lexer.build();
    let tokens = lexer.tokens();
    let mut parser = Parser::new(tokens);
    match parser.parse() {
        Ok(style_sheet) => Ok(HIRGenerator::new(style_sheet).generate()),
        Err(e) => Err(e),
    }
}

} // verus!
