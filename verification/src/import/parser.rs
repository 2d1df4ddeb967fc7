//! The shape of a parsed import declaration.

use vstd::prelude::*;

verus! {

/// `import <specifiers> from <source>`.
#[derive(Debug)]
pub struct ImportDeclaration {
    pub source: String,
    pub specifiers: Vec<ImportSpecifier>,
}

/// One imported binding.
#[derive(Debug)]
pub enum ImportSpecifier {
    Default(DefaultImportSpecifier),
    Named(String),
}

/// `a` in `import a from ..`.
#[derive(Debug)]
pub struct DefaultImportSpecifier {
    pub local: String,
}

/// `a as b` in `import { a as b } from ..`: `local` is `b`, `imported` is
/// `a`.
#[derive(Debug)]
pub struct NamedImportSpecifier {
    pub local: String,
    pub imported: String,
}

} // verus!
