//! A printer of syntax trees: source text in, the tree as indented text out.

use crate::ast::{StyleSheet, StyleSheetView};
use crate::error::{ParseError, ParseFailure};
use crate::lexer::Lexer;
use crate::lexical::lex;
use crate::parser::Parser;
use crate::syntax::stylesheet;
use vstd::prelude::*;
use vstd::string::*;
use vstd::utf8::encode_utf8;

verus! {

/// The text that the standard pretty debug format (`{:#?}`) gives for a
/// syntax tree with this content.
pub uninterp spec fn debug_text(sheet: StyleSheetView) -> Seq<char>;

/// Formats `sheet` with `format!("{:#?}", ..)`, that is, through the
/// derived `Debug` implementations of the tree's types. What is assumed of
/// it: the text depends on the content of the tree alone.
#[verifier::external_body]
fn pretty_debug(sheet: &StyleSheet) -> (text: String)
    ensures
        text@ == debug_text(sheet@),
{
    format!("{:#?}", sheet)
}

/// The tree of `source`, printed, or the failure of parsing it.
pub open spec fn printed_tree(source: Seq<char>) -> Result<Seq<char>, ParseFailure> {
    match stylesheet(lex(encode_utf8(source)), 0).result {
        Ok(sheet) => Ok(debug_text(sheet)),
        Err(failure) => Err(failure),
    }
}

/// Reads a source text and prints its syntax tree.
pub struct ASTGenerator {
    source_text: String,
}

impl ASTGenerator {
    /// The source text.
    pub closed spec fn source(&self) -> Seq<char> {
        self.source_text@
    }

    #[verifier::type_invariant]
    spec fn well_formed(&self) -> bool {
        encode_utf8(self.source_text@).len() < usize::MAX
    }

    /// A generator for `source_text`.
    pub fn new(source_text: String) -> (generator: Self)
        requires
            encode_utf8(source_text@).len() < usize::MAX,
        ensures
            generator.source() == source_text@,
    {
        Self { source_text }
    }

    /// Lexes and parses the source text and prints the tree.
    pub fn generate(&self) -> (r: Result<String, ParseError>)
        ensures
            printed_tree(self.source()) == match r {
                Ok(text) => Ok::<Seq<char>, ParseFailure>(text@),
                Err(e) => Err(e@),
            },
    {
        proof {
            use_type_invariant(self);
        }
        let mut lexer = Lexer::new(self.source_text.clone());
        lexer.build();
        let tokens = lexer.tokens();
        let mut parser = Parser::new(tokens);
        match parser.parse() {
            Ok(sheet) => Ok(pretty_debug(&sheet)),
            Err(e) => Err(e),
        }
    }
}

} // verus!
