//! The grammar of style sheets as functions on token sequences.
//!
//! Each function reads one construct at a position and says either what it
//! read and where the next construct begins, or why it failed and at which
//! token. One token of lookahead decides every choice. A position at or
//! beyond the end of the sequence counts as the end of input.

use crate::ast::{
    declaration_text, selector_list_text, DeclarationView, LiteralValueView, RuleView,
    SelectorView, SimpleSelectorView, StyleRuleView, StyleSheetView,
};
use crate::error::{Expected, ParseFailure, UnsupportedKind};
use crate::token::{TokenType, TokenView};
use vstd::prelude::*;

verus! {

/// The outcome of reading one construct: the construct or the failure, and
/// the position of the next token to read. After a failure that is the
/// token at which the failure was found.
pub struct Parsed<T> {
    pub result: Result<T, ParseFailure>,
    pub next: int,
}

/// Success with `value`; reading goes on at `next`.
pub open spec fn ok<T>(value: T, next: int) -> Parsed<T> {
    Parsed { result: Ok(value), next }
}

/// Failure at the token at `at`.
pub open spec fn fail<T>(failure: ParseFailure, at: int) -> Parsed<T> {
    Parsed { result: Err(failure), next: at }
}

/// Puts `head` in front of the items of a list that was read after it.
pub open spec fn prepend<T>(head: Seq<T>, tail: Parsed<Seq<T>>) -> Parsed<Seq<T>> {
    match tail.result {
        Ok(items) => ok(head + items, tail.next),
        Err(failure) => fail(failure, tail.next),
    }
}

/// The category of the token at `pos`; end of input beyond the sequence.
pub open spec fn kind_at(ts: Seq<TokenView>, pos: int) -> TokenType {
    if 0 <= pos < ts.len() {
        ts[pos].kind
    } else {
        TokenType::Eof
    }
}

/// True when nothing is left to read at `pos`.
pub open spec fn at_end(ts: Seq<TokenView>, pos: int) -> bool {
    kind_at(ts, pos) == TokenType::Eof
}

/// The failure for the token at `pos` where `expected` was needed.
pub open spec fn unexpected(ts: Seq<TokenView>, pos: int, expected: Expected) -> ParseFailure {
    if at_end(ts, pos) {
        ParseFailure::UnexpectedEndOfInput
    } else {
        ParseFailure::UnexpectedToken { expected, found: ts[pos].kind, line: ts[pos].line }
    }
}

/// `>`, `+` or `~`.
pub open spec fn is_combinator(kind: TokenType) -> bool {
    kind == TokenType::Greater || kind == TokenType::Plus || kind == TokenType::Tilde
}

/// `SimpleSelector := Identifier | ClassSelector | IdSelector
/// | PseudoClassSelector | PseudoElementSelector`
pub open spec fn simple_selector(ts: Seq<TokenView>, pos: int) -> Parsed<SimpleSelectorView> {
    match kind_at(ts, pos) {
        TokenType::Ident => ok(SimpleSelectorView::Type(ts[pos].text), pos + 1),
        TokenType::ClassSelector => ok(SimpleSelectorView::Class(ts[pos].text), pos + 1),
        TokenType::IdSelector => ok(SimpleSelectorView::Id(ts[pos].text), pos + 1),
        TokenType::PseudoClassSelector => ok(
            SimpleSelectorView::PseudoClass(ts[pos].text),
            pos + 1,
        ),
        TokenType::PseudoElementSelector => ok(
            SimpleSelectorView::PseudoElement(ts[pos].text),
            pos + 1,
        ),
        _ => fail(unexpected(ts, pos, Expected::SimpleSelector), pos),
    }
}

/// `(Combinator SimpleSelector)*`
pub open spec fn selector_tail(ts: Seq<TokenView>, pos: int) -> Parsed<Seq<SimpleSelectorView>>
    decreases ts.len() - pos,
{
    if is_combinator(kind_at(ts, pos)) {
        match simple_selector(ts, pos + 1).result {
            Ok(item) => prepend(seq![item], selector_tail(ts, pos + 2)),
            Err(failure) => fail(failure, pos + 1),
        }
    } else {
        ok(Seq::empty(), pos)
    }
}

/// `Selector := SimpleSelector (Combinator SimpleSelector)*`
pub open spec fn selector(ts: Seq<TokenView>, pos: int) -> Parsed<SelectorView> {
    match simple_selector(ts, pos).result {
        Ok(first) => {
            let all = prepend(seq![first], selector_tail(ts, pos + 1));
            match all.result {
                Ok(simple_selectors) => ok(SelectorView { simple_selectors }, all.next),
                Err(failure) => fail(failure, all.next),
            }
        },
        Err(failure) => fail(failure, pos),
    }
}

/// `(',' Selector)*`
pub open spec fn selectors_tail(ts: Seq<TokenView>, pos: int) -> Parsed<Seq<SelectorView>>
    decreases ts.len() - pos,
{
    if kind_at(ts, pos) == TokenType::Comma {
        let one = selector(ts, pos + 1);
        match one.result {
            Ok(item) => {
                proof {
                    lemma_selector_bounds(ts, pos + 1);
                }
                prepend(seq![item], selectors_tail(ts, one.next))
            },
            Err(failure) => fail(failure, one.next),
        }
    } else {
        ok(Seq::empty(), pos)
    }
}

/// `Selectors := Selector (',' Selector)*`
pub open spec fn selectors(ts: Seq<TokenView>, pos: int) -> Parsed<Seq<SelectorView>> {
    let one = selector(ts, pos);
    match one.result {
        Ok(first) => prepend(seq![first], selectors_tail(ts, one.next)),
        Err(failure) => fail(failure, one.next),
    }
}

/// `Value := Identifier | Number | Percentage | Dimension`
///
/// Strings, functions, URLs and colours have a lexical shape of their own
/// and are refused as unsupported. A `#name` in the place of a value is a
/// colour, whether it was read as a hash or as an id selector.
pub open spec fn value(ts: Seq<TokenView>, pos: int) -> Parsed<LiteralValueView> {
    match kind_at(ts, pos) {
        TokenType::Ident => ok(LiteralValueView::Ident(ts[pos].text), pos + 1),
        TokenType::Number => ok(LiteralValueView::Number(ts[pos].text), pos + 1),
        TokenType::Percentage => ok(LiteralValueView::Percentage(ts[pos].text), pos + 1),
        TokenType::Dimension => ok(LiteralValueView::Dimension(ts[pos].text), pos + 1),
        TokenType::String => fail(unsupported(ts, pos, UnsupportedKind::StringValue), pos),
        TokenType::Function => fail(unsupported(ts, pos, UnsupportedKind::FunctionValue), pos),
        TokenType::Uri => fail(unsupported(ts, pos, UnsupportedKind::UrlValue), pos),
        TokenType::Hash => fail(unsupported(ts, pos, UnsupportedKind::ColorValue), pos),
        TokenType::IdSelector => fail(unsupported(ts, pos, UnsupportedKind::ColorValue), pos),
        _ => fail(unexpected(ts, pos, Expected::Value), pos),
    }
}

/// The failure for an unsupported construct that begins at `pos`.
pub open spec fn unsupported(ts: Seq<TokenView>, pos: int, kind: UnsupportedKind) -> ParseFailure {
    ParseFailure::UnsupportedConstruct { kind, line: ts[pos].line }
}

/// `Declaration := Identifier ':' Value ';'`
pub open spec fn declaration(ts: Seq<TokenView>, pos: int) -> Parsed<DeclarationView> {
    if kind_at(ts, pos) != TokenType::Ident {
        fail(unexpected(ts, pos, Expected::Category(TokenType::Ident)), pos)
    } else if kind_at(ts, pos + 1) != TokenType::Colon {
        fail(unexpected(ts, pos + 1, Expected::Category(TokenType::Colon)), pos + 1)
    } else {
        match value(ts, pos + 2).result {
            Ok(value) => {
                if kind_at(ts, pos + 3) != TokenType::Semicolon {
                    fail(
                        unexpected(ts, pos + 3, Expected::Category(TokenType::Semicolon)),
                        pos + 3,
                    )
                } else {
                    ok(
                        DeclarationView {
                            property: ts[pos].text,
                            value,
                            css_text: declaration_text(ts[pos].text, value.text()),
                        },
                        pos + 4,
                    )
                }
            },
            Err(failure) => fail(failure, pos + 2),
        }
    }
}

/// `Declaration*`, up to a `}` or the end of input.
pub open spec fn declarations(ts: Seq<TokenView>, pos: int) -> Parsed<Seq<DeclarationView>>
    decreases ts.len() - pos,
{
    if kind_at(ts, pos) == TokenType::CurlyRight || at_end(ts, pos) {
        ok(Seq::empty(), pos)
    } else {
        let one = declaration(ts, pos);
        match one.result {
            Ok(item) => prepend(seq![item], declarations(ts, pos + 4)),
            Err(failure) => fail(failure, one.next),
        }
    }
}

/// `StyleRule := Selectors '{' Declaration* '}'`
pub open spec fn style_rule(ts: Seq<TokenView>, pos: int) -> Parsed<StyleRuleView> {
    let heads = selectors(ts, pos);
    match heads.result {
        Ok(selectors) => {
            if kind_at(ts, heads.next) != TokenType::CurlyLeft {
                fail(
                    unexpected(ts, heads.next, Expected::Category(TokenType::CurlyLeft)),
                    heads.next,
                )
            } else {
                let body = declarations(ts, heads.next + 1);
                match body.result {
                    Ok(declarations) => {
                        if kind_at(ts, body.next) != TokenType::CurlyRight {
                            fail(
                                unexpected(
                                    ts,
                                    body.next,
                                    Expected::Category(TokenType::CurlyRight),
                                ),
                                body.next,
                            )
                        } else {
                            ok(
                                StyleRuleView {
                                    selector_text: selector_list_text(selectors),
                                    selectors,
                                    declarations,
                                },
                                body.next + 1,
                            )
                        }
                    },
                    Err(failure) => fail(failure, body.next),
                }
            }
        },
        Err(failure) => fail(failure, heads.next),
    }
}

/// `Rule := AtKeywordRule | StyleRule`, of which the first is refused.
pub open spec fn rule(ts: Seq<TokenView>, pos: int) -> Parsed<RuleView> {
    if kind_at(ts, pos) == TokenType::Atkeyword {
        fail(unsupported(ts, pos, UnsupportedKind::MediaRule), pos)
    } else {
        let one = style_rule(ts, pos);
        match one.result {
            Ok(rule) => ok(RuleView::StyleRule(rule), one.next),
            Err(failure) => fail(failure, one.next),
        }
    }
}

/// `Rule*`, up to the end of input.
pub open spec fn rules(ts: Seq<TokenView>, pos: int) -> Parsed<Seq<RuleView>>
    decreases ts.len() - pos,
{
    if at_end(ts, pos) {
        ok(Seq::empty(), pos)
    } else {
        let one = rule(ts, pos);
        match one.result {
            Ok(item) => {
                proof {
                    lemma_rule_bounds(ts, pos);
                }
                prepend(seq![item], rules(ts, one.next))
            },
            Err(failure) => fail(failure, one.next),
        }
    }
}

/// `StyleSheet := Rule* EndOfInput`
pub open spec fn stylesheet(ts: Seq<TokenView>, pos: int) -> Parsed<StyleSheetView> {
    let all = rules(ts, pos);
    match all.result {
        Ok(rules) => ok(StyleSheetView { rules }, all.next),
        Err(failure) => fail(failure, all.next),
    }
}

/// Putting two lists in front, one after the other, is putting their
/// concatenation in front.
pub proof fn lemma_prepend_twice<T>(a: Seq<T>, b: Seq<T>, tail: Parsed<Seq<T>>)
    ensures
        prepend(a, prepend(b, tail)) == prepend(a + b, tail),
{
    match tail.result {
        Ok(items) => {
            assert(a + (b + items) =~= (a + b) + items);
        },
        Err(_) => {},
    }
}

/// Putting nothing in front changes nothing.
pub proof fn lemma_prepend_nothing<T>(tail: Parsed<Seq<T>>)
    ensures
        prepend(Seq::empty(), tail) == tail,
{
    match tail.result {
        Ok(items) => {
            assert(Seq::<T>::empty() + items =~= items);
        },
        Err(_) => {},
    }
}

/// Reading stays inside the token sequence: it stops between the start and
/// the end.
pub proof fn lemma_selector_tail_bounds(ts: Seq<TokenView>, pos: int)
    requires
        0 <= pos <= ts.len(),
    ensures
        pos <= selector_tail(ts, pos).next <= ts.len(),
    decreases ts.len() - pos,
{
    if is_combinator(kind_at(ts, pos)) {
        if simple_selector(ts, pos + 1).result is Ok {
            lemma_selector_tail_bounds(ts, pos + 2);
        }
    }
}

/// A selector that was read holds at least one simple selector and took at
/// least one token; a failure is found at or after the start.
pub proof fn lemma_selector_bounds(ts: Seq<TokenView>, pos: int)
    requires
        0 <= pos,
    ensures
        pos <= selector(ts, pos).next,
        pos <= ts.len() ==> selector(ts, pos).next <= ts.len(),
        selector(ts, pos).result matches Ok(item) ==> pos < selector(ts, pos).next <= ts.len()
            && item.simple_selectors.len() >= 1,
{
    if simple_selector(ts, pos).result is Ok {
        lemma_selector_tail_bounds(ts, pos + 1);
    }
}

/// See `lemma_selector_tail_bounds`.
pub proof fn lemma_selectors_tail_bounds(ts: Seq<TokenView>, pos: int)
    requires
        0 <= pos <= ts.len(),
    ensures
        pos <= selectors_tail(ts, pos).next <= ts.len(),
        selectors_tail(ts, pos).result matches Ok(items) ==> forall|i: int|
            0 <= i < items.len() ==> (#[trigger] items[i]).simple_selectors.len() >= 1,
    decreases ts.len() - pos,
{
    if kind_at(ts, pos) == TokenType::Comma {
        lemma_selector_bounds(ts, pos + 1);
        if selector(ts, pos + 1).result is Ok {
            lemma_selectors_tail_bounds(ts, selector(ts, pos + 1).next);
        }
    }
}

/// A selector list that was read is not empty, none of its selectors is
/// empty, and it took at least one token.
pub proof fn lemma_selectors_bounds(ts: Seq<TokenView>, pos: int)
    requires
        0 <= pos,
    ensures
        pos <= selectors(ts, pos).next,
        pos <= ts.len() ==> selectors(ts, pos).next <= ts.len(),
        selectors(ts, pos).result matches Ok(items) ==> {
            &&& pos < selectors(ts, pos).next <= ts.len()
            &&& items.len() >= 1
            &&& forall|i: int|
                0 <= i < items.len() ==> (#[trigger] items[i]).simple_selectors.len() >= 1
        },
{
    lemma_selector_bounds(ts, pos);
    if selector(ts, pos).result is Ok {
        lemma_selectors_tail_bounds(ts, selector(ts, pos).next);
    }
}

/// Every declaration that was read is well formed, and reading stays inside
/// the token sequence.
pub proof fn lemma_declarations_bounds(ts: Seq<TokenView>, pos: int)
    requires
        0 <= pos <= ts.len(),
    ensures
        pos <= declarations(ts, pos).next <= ts.len(),
        declarations(ts, pos).result matches Ok(items) ==> forall|i: int|
            0 <= i < items.len() ==> (#[trigger] items[i]).well_formed(),
    decreases ts.len() - pos,
{
    if !(kind_at(ts, pos) == TokenType::CurlyRight || at_end(ts, pos)) {
        if declaration(ts, pos).result is Ok {
            lemma_declarations_bounds(ts, pos + 4);
        }
    }
}

/// A style rule that was read is well formed and took at least one token.
pub proof fn lemma_style_rule_bounds(ts: Seq<TokenView>, pos: int)
    requires
        0 <= pos,
    ensures
        pos <= style_rule(ts, pos).next,
        pos <= ts.len() ==> style_rule(ts, pos).next <= ts.len(),
        style_rule(ts, pos).result matches Ok(item) ==> pos < style_rule(ts, pos).next <= ts.len()
            && item.well_formed(),
{
    lemma_selectors_bounds(ts, pos);
    let heads = selectors(ts, pos);
    if heads.result is Ok && kind_at(ts, heads.next) == TokenType::CurlyLeft {
        lemma_declarations_bounds(ts, heads.next + 1);
    }
}

/// A rule that was read is well formed and took at least one token.
pub proof fn lemma_rule_bounds(ts: Seq<TokenView>, pos: int)
    requires
        0 <= pos,
    ensures
        pos <= rule(ts, pos).next,
        pos <= ts.len() ==> rule(ts, pos).next <= ts.len(),
        rule(ts, pos).result matches Ok(item) ==> pos < rule(ts, pos).next <= ts.len()
            && item.well_formed(),
{
    lemma_style_rule_bounds(ts, pos);
}

} // verus!
