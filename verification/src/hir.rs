//! The flattened form of a style sheet: ordered rules, each a selector text
//! and ordered pairs of property and value, all plain strings.

use crate::ast::{DeclarationView, Rule, RuleView, StyleSheet, StyleSheetView};
use vstd::prelude::*;

verus! {

/// A property and the raw text of its value.
pub struct HIRDeclarationView {
    pub property: Seq<char>,
    pub value: Seq<char>,
}

/// A selector text and the declarations under it, in order.
pub struct HIRRuleView {
    pub selector: Seq<char>,
    pub declarations: Seq<HIRDeclarationView>,
}

/// The rules, in order.
pub struct HIRView {
    pub rules: Seq<HIRRuleView>,
}

/// The property as it is and the raw lexeme of the value, whatever its
/// category.
pub open spec fn lower_declaration(declaration: DeclarationView) -> HIRDeclarationView {
    HIRDeclarationView { property: declaration.property, value: declaration.value.text() }
}

/// The selector text as it is and every declaration, in order.
pub open spec fn lower_rule(rule: RuleView) -> HIRRuleView {
    match rule {
        RuleView::StyleRule(style_rule) => HIRRuleView {
            selector: style_rule.selector_text,
            declarations: style_rule.declarations.map_values(
                |d: DeclarationView| lower_declaration(d),
            ),
        },
    }
}

/// Every rule, in order. Nothing is dropped, merged or reordered.
pub open spec fn lower(sheet: StyleSheetView) -> HIRView {
    HIRView { rules: sheet.rules.map_values(|r: RuleView| lower_rule(r)) }
}

/// A property and the raw text of its value.
#[derive(Debug, Clone, PartialEq, Eq)]
pub struct HIRDeclaration {
    pub property: String,
    pub value: String,
}

impl View for HIRDeclaration {
    type V = HIRDeclarationView;

    open spec fn view(&self) -> HIRDeclarationView {
        HIRDeclarationView { property: self.property@, value: self.value@ }
    }
}

/// A selector text and the declarations under it.
#[derive(Debug, Clone, PartialEq, Eq)]
pub struct HIRRule {
    pub selector: String,
    pub declarations: Vec<HIRDeclaration>,
}

impl View for HIRRule {
    type V = HIRRuleView;

    open spec fn view(&self) -> HIRRuleView {
        HIRRuleView {
            selector: self.selector@,
            declarations: self.declarations@.map_values(|d: HIRDeclaration| d@),
        }
    }
}

/// The flattened style sheet.
#[derive(Debug, Clone, PartialEq, Eq)]
pub struct HIR {
    pub rules: Vec<HIRRule>,
}

impl View for HIR {
    type V = HIRView;

    open spec fn view(&self) -> HIRView {
        HIRView { rules: self.rules@.map_values(|r: HIRRule| r@) }
    }
}

/// Lowers one syntax tree.
pub struct HIRGenerator {
    ast: StyleSheet,
}

impl HIRGenerator {
    /// The syntax tree that is lowered.
    pub closed spec fn ast(&self) -> StyleSheetView {
        self.ast@
    }

    /// A generator for `ast`.
    pub fn new(ast: StyleSheet) -> (generator: Self)
        ensures
            generator.ast() == ast@,
    {
        Self { ast }
    }

    /// Flattens the syntax tree in one pass over its rules and their
    /// declarations.
    pub fn generate(&self) -> (hir: HIR)
        ensures
            hir@ == lower(self.ast()),
    {
        let mut rules: Vec<HIRRule> = Vec::new();
        let mut i: usize = 0;
        while i < self.ast.rules.len()
            invariant
                i <= self.ast.rules@.len(),
                rules@.len() == i,
                forall|j: int| 0 <= j < i ==> (#[trigger] rules@[j])@ == lower_rule(self.ast.rules@[j]@),
            decreases self.ast.rules@.len() - i,
        {
            let rule = lower_one(&self.ast.rules[i]);
            rules.push(rule);
            i += 1;
        }
        let hir = HIR { rules };
        assert(hir@.rules =~= lower(self.ast()).rules);
        hir
    }
}

/// Flattens one rule.
fn lower_one(rule: &Rule) -> (lowered: HIRRule)
    ensures
        lowered@ == lower_rule(rule@),
{
    match rule {
        Rule::StyleRule(style_rule) => {
            let selector = style_rule.selector_text.clone();
            let mut declarations: Vec<HIRDeclaration> = Vec::new();
            let mut k: usize = 0;
            while k < style_rule.declarations.len()
                invariant
                    k <= style_rule.declarations@.len(),
                    declarations@.len() == k,
                    forall|j: int|
                        0 <= j < k ==> (#[trigger] declarations@[j])@ == lower_declaration(
                            style_rule.declarations@[j]@,
                        ),
                decreases style_rule.declarations@.len() - k,
            {
                let declaration = &style_rule.declarations[k];
                let property = declaration.property.clone();
                let value = declaration.value.to_string();
                declarations.push(HIRDeclaration { property, value });
                k += 1;
            }
            let lowered = HIRRule { selector, declarations };
            assert(lowered@.declarations =~= lower_rule(rule@).declarations);
            lowered
        },
    }
}

} // verus!
