//! The syntax tree of a style sheet, its mathematical view, and the text
//! that is derived from selectors and values.
//!
//! ```text
//! StyleSheet     := Rule* EndOfInput
//! Rule           := StyleRule
//! StyleRule      := Selectors '{' Declaration* '}'
//! Selectors      := Selector (',' Selector)*
//! Selector       := SimpleSelector (Combinator SimpleSelector)*
//! Combinator     := '>' | '+' | '~'
//! SimpleSelector := Identifier | ClassSelector | IdSelector
//!                 | PseudoClassSelector | PseudoElementSelector
//! Declaration    := Identifier ':' Value ';'
//! Value          := Identifier | Number | Percentage | Dimension
//! ```

use vstd::prelude::*;
use vstd::string::*;

verus! {

/// The text that separates the parts of a selector text: one space.
pub open spec fn separator() -> Seq<char> {
    seq![' ']
}

/// The parts in order, with `sep` between each two neighbours.
pub open spec fn join(parts: Seq<Seq<char>>, sep: Seq<char>) -> Seq<char>
    decreases parts.len(),
{
    if parts.len() == 0 {
        Seq::empty()
    } else if parts.len() == 1 {
        parts[0]
    } else {
        join(parts.drop_last(), sep) + sep + parts.last()
    }
}

/// A simple selector: one atomic pattern, which wraps one name.
pub enum SimpleSelectorView {
    Type(Seq<char>),
    Id(Seq<char>),
    Class(Seq<char>),
    PseudoClass(Seq<char>),
    PseudoElement(Seq<char>),
}

impl SimpleSelectorView {
    /// The name that the selector wraps, as it stood in the source.
    pub open spec fn name(self) -> Seq<char> {
        match self {
            SimpleSelectorView::Type(name) => name,
            SimpleSelectorView::Id(name) => name,
            SimpleSelectorView::Class(name) => name,
            SimpleSelectorView::PseudoClass(name) => name,
            SimpleSelectorView::PseudoElement(name) => name,
        }
    }
}

/// A selector: simple selectors that combinators joined, in source order.
pub struct SelectorView {
    pub simple_selectors: Seq<SimpleSelectorView>,
}

impl SelectorView {
    /// The names of the simple selectors, separated by single spaces. Which
    /// combinator stood between two of them is not kept.
    pub open spec fn text(self) -> Seq<char> {
        join(self.simple_selectors.map_values(|s: SimpleSelectorView| s.name()), separator())
    }
}

/// The texts of all selectors of a rule, separated by single spaces.
pub open spec fn selector_list_text(selectors: Seq<SelectorView>) -> Seq<char> {
    join(selectors.map_values(|s: SelectorView| s.text()), separator())
}

/// A value: the raw lexeme, tagged with the category it was read as.
pub enum LiteralValueView {
    Ident(Seq<char>),
    Number(Seq<char>),
    Dimension(Seq<char>),
    Percentage(Seq<char>),
}

impl LiteralValueView {
    /// The raw lexeme, whatever the category.
    pub open spec fn text(self) -> Seq<char> {
        match self {
            LiteralValueView::Ident(text) => text,
            LiteralValueView::Number(text) => text,
            LiteralValueView::Dimension(text) => text,
            LiteralValueView::Percentage(text) => text,
        }
    }
}

/// The text `property: value;`.
pub open spec fn declaration_text(property: Seq<char>, value: Seq<char>) -> Seq<char> {
    property + seq![':', ' '] + value + seq![';']
}

/// A declaration.
pub struct DeclarationView {
    pub property: Seq<char>,
    pub value: LiteralValueView,
    pub css_text: Seq<char>,
}

impl DeclarationView {
    /// The derived text agrees with the property and the value.
    pub open spec fn well_formed(self) -> bool {
        self.css_text == declaration_text(self.property, self.value.text())
    }
}

/// A style rule.
pub struct StyleRuleView {
    pub selector_text: Seq<char>,
    pub selectors: Seq<SelectorView>,
    pub declarations: Seq<DeclarationView>,
}

impl StyleRuleView {
    /// There is at least one selector, no selector is empty, and the derived
    /// texts agree with the structure.
    pub open spec fn well_formed(self) -> bool {
        &&& self.selectors.len() >= 1
        &&& forall|i: int|
            0 <= i < self.selectors.len() ==> (#[trigger] self.selectors[i]).simple_selectors.len()
                >= 1
        &&& self.selector_text == selector_list_text(self.selectors)
        &&& forall|i: int|
            0 <= i < self.declarations.len() ==> (#[trigger] self.declarations[i]).well_formed()
    }
}

/// A rule.
pub enum RuleView {
    StyleRule(StyleRuleView),
}

impl RuleView {
    pub open spec fn well_formed(self) -> bool {
        match self {
            RuleView::StyleRule(rule) => rule.well_formed(),
        }
    }
}

/// A style sheet: its rules in source order.
pub struct StyleSheetView {
    pub rules: Seq<RuleView>,
}

impl StyleSheetView {
    pub open spec fn well_formed(self) -> bool {
        forall|i: int| 0 <= i < self.rules.len() ==> (#[trigger] self.rules[i]).well_formed()
    }
}

/// An element name, such as `div`.
#[derive(Debug, Clone, PartialEq, Eq)]
pub struct TypeSelector {
    pub element: String,
}

/// An id selector, such as `#main`.
#[derive(Debug, Clone, PartialEq, Eq)]
pub struct IdSelector {
    pub id: String,
}

/// A class selector, such as `.container`.
#[derive(Debug, Clone, PartialEq, Eq)]
pub struct ClassSelector {
    pub class_name: String,
}

/// A pseudo-class selector, such as `:hover`.
#[derive(Debug, Clone, PartialEq, Eq)]
pub struct PseudoClassSelector {
    pub ident: String,
}

/// A pseudo-element selector, such as `::before`.
#[derive(Debug, Clone, PartialEq, Eq)]
pub struct PseudoElementSelector {
    pub ident: String,
}

/// One atomic selector.
#[derive(Debug, Clone, PartialEq, Eq)]
pub enum SimpleSelector {
    Type(TypeSelector),
    Id(IdSelector),
    Class(ClassSelector),
    PseudoClass(PseudoClassSelector),
    PseudoElement(PseudoElementSelector),
}

impl View for SimpleSelector {
    type V = SimpleSelectorView;

    open spec fn view(&self) -> SimpleSelectorView {
        match self {
            SimpleSelector::Type(s) => SimpleSelectorView::Type(s.element@),
            SimpleSelector::Id(s) => SimpleSelectorView::Id(s.id@),
            SimpleSelector::Class(s) => SimpleSelectorView::Class(s.class_name@),
            SimpleSelector::PseudoClass(s) => SimpleSelectorView::PseudoClass(s.ident@),
            SimpleSelector::PseudoElement(s) => SimpleSelectorView::PseudoElement(s.ident@),
        }
    }
}

impl SimpleSelector {
    /// The name that the selector wraps.
    pub fn to_string(&self) -> (text: String)
        ensures
            text@ == self@.name(),
    {
        match self {
            SimpleSelector::Type(type_selector) => type_selector.element.clone(),
            SimpleSelector::Id(id_selector) => id_selector.id.clone(),
            SimpleSelector::Class(class_selector) => class_selector.class_name.clone(),
            SimpleSelector::PseudoClass(pseudo_class_selector) => {
                pseudo_class_selector.ident.clone()
            },
            SimpleSelector::PseudoElement(pseudo_element_selector) => {
                pseudo_element_selector.ident.clone()
            },
        }
    }
}

/// The views of simple selectors, in order.
pub open spec fn simple_selector_views(items: Seq<SimpleSelector>) -> Seq<SimpleSelectorView> {
    items.map_values(|s: SimpleSelector| s@)
}

/// Simple selectors in source order.
#[derive(Debug, Clone, PartialEq, Eq)]
pub struct Selector {
    pub simple_selectors: Vec<SimpleSelector>,
}

impl View for Selector {
    type V = SelectorView;

    open spec fn view(&self) -> SelectorView {
        SelectorView { simple_selectors: simple_selector_views(self.simple_selectors@) }
    }
}

impl Selector {
    /// The names of the simple selectors, separated by single spaces.
    pub fn to_string(&self) -> (text: String)
        ensures
            text@ == self@.text(),
    {
        let ghost names = self@.simple_selectors.map_values(|s: SimpleSelectorView| s.name());
        let mut text = String::new();
        let mut i: usize = 0;
        while i < self.simple_selectors.len()
            invariant
                i <= self.simple_selectors@.len(),
                names == self@.simple_selectors.map_values(|s: SimpleSelectorView| s.name()),
                text@ == join(names.subrange(0, i as int), separator()),
            decreases self.simple_selectors@.len() - i,
        {
            let name = self.simple_selectors[i].to_string();
            proof {
                lemma_join_push(names.subrange(0, i as int), separator(), names[i as int]);
                assert(names.subrange(0, i as int).push(names[i as int]) =~= names.subrange(
                    0,
                    i + 1,
                ));
                reveal_strlit(" ");
                assert(" "@ =~= separator());
            }
            if i > 0 {
                text.append(" ");
            }
            text.append(name.as_str());
            i += 1;
        }
        assert(names.subrange(0, i as int) =~= names);
        text
    }
}

/// The views of selectors, in order.
pub open spec fn selector_views(items: Seq<Selector>) -> Seq<SelectorView> {
    items.map_values(|s: Selector| s@)
}

/// Adding a part at the end adds the separator, unless it is the first, and
/// the part.
pub proof fn lemma_join_push(parts: Seq<Seq<char>>, sep: Seq<char>, part: Seq<char>)
    ensures
        join(parts.push(part), sep) == if parts.len() == 0 {
            part
        } else {
            join(parts, sep) + sep + part
        },
{
    assert(parts.push(part).drop_last() =~= parts);
    assert(parts.push(part).last() == part);
}

/// A raw lexeme, tagged with the category it was read as.
#[derive(Debug, Clone, PartialEq, Eq)]
pub enum LiteralValue {
    Ident(String),
    Number(String),
    Dimension(String),
    Percentage(String),
}

impl View for LiteralValue {
    type V = LiteralValueView;

    open spec fn view(&self) -> LiteralValueView {
        match self {
            LiteralValue::Ident(text) => LiteralValueView::Ident(text@),
            LiteralValue::Number(text) => LiteralValueView::Number(text@),
            LiteralValue::Dimension(text) => LiteralValueView::Dimension(text@),
            LiteralValue::Percentage(text) => LiteralValueView::Percentage(text@),
        }
    }
}

/// The value of a declaration.
#[derive(Debug, Clone, PartialEq, Eq)]
pub struct Value {
    pub value: LiteralValue,
}

impl View for Value {
    type V = LiteralValueView;

    open spec fn view(&self) -> LiteralValueView {
        self.value@
    }
}

impl Value {
    /// The raw lexeme, whatever the category.
    pub fn to_string(&self) -> (text: String)
        ensures
            text@ == self@.text(),
    {
        match &self.value {
            LiteralValue::Ident(ident) => ident.clone(),
            LiteralValue::Number(number) => number.clone(),
            LiteralValue::Dimension(dimension) => dimension.clone(),
            LiteralValue::Percentage(percentage) => percentage.clone(),
        }
    }
}

/// A property, its value, and the text `property: value;`.
#[derive(Debug, Clone, PartialEq, Eq)]
pub struct Declaration {
    pub property: String,
    pub value: Value,
    pub css_text: String,
}

impl View for Declaration {
    type V = DeclarationView;

    open spec fn view(&self) -> DeclarationView {
        DeclarationView {
            property: self.property@,
            value: self.value@,
            css_text: self.css_text@,
        }
    }
}

impl Declaration {
    /// The declaration of `property` with `value`, with its derived text.
    pub fn new(property: String, value: Value) -> (declaration: Declaration)
        ensures
            declaration@.property == property@,
            declaration@.value == value@,
            declaration@.well_formed(),
    {
        let mut css_text = property.clone();
        let value_text = value.to_string();
        proof {
            reveal_strlit(": ");
            reveal_strlit(";");
            assert(": "@ =~= seq![':', ' ']);
            assert(";"@ =~= seq![';']);
        }
        css_text.append(": ");
        css_text.append(value_text.as_str());
        css_text.append(";");
        Declaration { property, value, css_text }
    }
}

/// The views of declarations, in order.
pub open spec fn declaration_views(items: Seq<Declaration>) -> Seq<DeclarationView> {
    items.map_values(|d: Declaration| d@)
}

/// Selectors, declarations, and the selector text derived from the former.
#[derive(Debug, Clone, PartialEq, Eq)]
pub struct StyleRule {
    pub selector_text: String,
    pub selectors: Vec<Selector>,
    pub declarations: Vec<Declaration>,
}

impl View for StyleRule {
    type V = StyleRuleView;

    open spec fn view(&self) -> StyleRuleView {
        StyleRuleView {
            selector_text: self.selector_text@,
            selectors: selector_views(self.selectors@),
            declarations: declaration_views(self.declarations@),
        }
    }
}

impl StyleRule {
    /// The rule with these selectors and declarations, with its derived
    /// selector text.
    pub fn new(selectors: Vec<Selector>, declarations: Vec<Declaration>) -> (rule: StyleRule)
        ensures
            rule@.selectors == selector_views(selectors@),
            rule@.declarations == declaration_views(declarations@),
            rule@.selector_text == selector_list_text(rule@.selectors),
    {
        let ghost texts = selector_views(selectors@).map_values(|s: SelectorView| s.text());
        let mut selector_text = String::new();
        let mut i: usize = 0;
        while i < selectors.len()
            invariant
                i <= selectors@.len(),
                texts == selector_views(selectors@).map_values(|s: SelectorView| s.text()),
                selector_text@ == join(texts.subrange(0, i as int), separator()),
            decreases selectors@.len() - i,
        {
            let text = selectors[i].to_string();
            proof {
                lemma_join_push(texts.subrange(0, i as int), separator(), texts[i as int]);
                assert(texts.subrange(0, i as int).push(texts[i as int]) =~= texts.subrange(
                    0,
                    i + 1,
                ));
                reveal_strlit(" ");
                assert(" "@ =~= separator());
            }
            if i > 0 {
                selector_text.append(" ");
            }
            selector_text.append(text.as_str());
            i += 1;
        }
        assert(texts.subrange(0, i as int) =~= texts);
        StyleRule { selector_text, selectors, declarations }
    }
}

/// A rule of a style sheet. Only style rules exist so far.
#[derive(Debug, Clone, PartialEq, Eq)]
pub enum Rule {
    StyleRule(StyleRule),
}

impl View for Rule {
    type V = RuleView;

    open spec fn view(&self) -> RuleView {
        match self {
            Rule::StyleRule(rule) => RuleView::StyleRule(rule@),
        }
    }
}

/// The views of rules, in order.
pub open spec fn rule_views(items: Seq<Rule>) -> Seq<RuleView> {
    items.map_values(|r: Rule| r@)
}

/// The rules of a style sheet, in source order.
#[derive(Debug, Clone, PartialEq, Eq)]
pub struct StyleSheet {
    pub rules: Vec<Rule>,
}

impl View for StyleSheet {
    type V = StyleSheetView;

    open spec fn view(&self) -> StyleSheetView {
        StyleSheetView { rules: rule_views(self.rules@) }
    }
}

} // verus!
