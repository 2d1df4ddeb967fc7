//! What holds of the lexer, the parser and the lowering for every input.

use crate::ast::{RuleView, StyleSheet};
use crate::css_info;
use crate::error::ParseFailure;
use crate::hir::{lower, lower_rule, HIR};
use crate::lexical::{
    dimension_end, first_match, first_match_from, is_elided, lemma_first_match_bounds,
    lemma_lex_from_shape, lemma_match_bounds, lemma_run_end, lex, lex_from, newlines, number_end,
    percentage_end, ByteClass,
};
use crate::syntax::{
    at_end, declaration, declarations, kind_at, lemma_rule_bounds, lemma_selectors_bounds, rule,
    rules, selectors, simple_selector, style_rule, stylesheet, value,
};
use crate::token::{TokenType, TokenView};
use vstd::prelude::*;

verus! {

/// Where digits are directly followed by `%`, the token is a percentage: it
/// is never read as a number with a stray character after it.
pub proof fn lemma_percentage_before_number(src: Seq<u8>, pos: int)
    requires
        percentage_end(src, pos) is Some,
    ensures
        first_match(src, pos) == Some((TokenType::Percentage, percentage_end(src, pos)->0)),
{
    reveal_with_fuel(first_match_from, 6);
}

/// Where digits are directly followed by an identifier, the token is a
/// dimension that holds both: it is never read as a number followed by an
/// identifier.
pub proof fn lemma_dimension_before_number(src: Seq<u8>, pos: int)
    requires
        dimension_end(src, pos) is Some,
    ensures
        first_match(src, pos) == Some((TokenType::Dimension, dimension_end(src, pos)->0)),
        number_end(src, pos) is Some,
        number_end(src, pos)->0 < dimension_end(src, pos)->0,
{
    reveal_with_fuel(first_match_from, 7);
    lemma_match_bounds(TokenType::Dimension, src, pos);
    lemma_run_end(src, pos, ByteClass::Digit);
    lemma_run_end(src, number_end(src, pos)->0 + 1, ByteClass::IdentPart);
}

/// A token sequence ends with exactly one end-of-input token, and holds
/// neither whitespace nor comments.
pub proof fn lemma_token_sequence_shape(src: Seq<u8>)
    ensures
        lex(src).len() >= 1,
        lex(src).last().kind == TokenType::Eof,
        forall|i: int|
            0 <= i < lex(src).len() - 1 ==> {
                let kind = (#[trigger] lex(src)[i]).kind;
                kind != TokenType::Eof && !is_elided(kind)
            },
{
    lemma_lex_from_shape(src, 0, 1);
}

/// Along a token sequence the lines never decrease.
pub proof fn lemma_lines_never_decrease(src: Seq<u8>, pos: int, line: nat, i: int, j: int)
    requires
        0 <= i <= j < lex_from(src, pos, line).len(),
    ensures
        line <= lex_from(src, pos, line)[i].line <= lex_from(src, pos, line)[j].line,
    decreases src.len() - pos,
{
    lemma_lex_from_shape(src, pos, line);
    if pos < 0 || pos >= src.len() {
    } else {
        lemma_first_match_bounds(src, pos);
        match first_match(src, pos) {
            None => {
                lemma_lines_never_decrease(src, pos + 1, line, i, j);
            },
            Some((kind, end)) => {
                if is_elided(kind) {
                    lemma_lines_never_decrease(src, end, line + newlines(src, pos, end), i, j);
                } else {
                    lemma_lex_from_shape(src, end, line);
                    if i > 0 {
                        lemma_lines_never_decrease(src, end, line, i - 1, j - 1);
                    }
                }
            },
        }
    }
}

/// One token of lookahead decides. Which simple selector or which value is
/// read, or why none is, depends on the token at the cursor alone; and the
/// five kinds of simple selector begin with five different categories.
pub proof fn lemma_one_token_decides(a: Seq<TokenView>, i: int, b: Seq<TokenView>, j: int)
    requires
        0 <= i < a.len(),
        0 <= j < b.len(),
        a[i] == b[j],
    ensures
        simple_selector(a, i).result == simple_selector(b, j).result,
        value(a, i).result == value(b, j).result,
        simple_selector(a, i).result matches Ok(item) ==> {
            &&& item is Type <==> a[i].kind == TokenType::Ident
            &&& item is Class <==> a[i].kind == TokenType::ClassSelector
            &&& item is Id <==> a[i].kind == TokenType::IdSelector
            &&& item is PseudoClass <==> a[i].kind == TokenType::PseudoClassSelector
            &&& item is PseudoElement <==> a[i].kind == TokenType::PseudoElementSelector
            &&& item.name() == a[i].text
        },
        value(a, i).result matches Ok(item) ==> {
            &&& item is Ident <==> a[i].kind == TokenType::Ident
            &&& item is Number <==> a[i].kind == TokenType::Number
            &&& item is Percentage <==> a[i].kind == TokenType::Percentage
            &&& item is Dimension <==> a[i].kind == TokenType::Dimension
            &&& item.text() == a[i].text
        },
{
}

/// Rules that follow one another up to the end of input.
///
/// `starts` holds where each rule begins and, last, where the input ends.
pub open spec fn rules_chain(ts: Seq<TokenView>, starts: Seq<int>) -> bool {
    &&& starts.len() >= 1
    &&& 0 <= starts[0]
    &&& forall|i: int|
        #![trigger starts[i]]
        0 <= i < starts.len() - 1 ==> {
            &&& !at_end(ts, starts[i])
            &&& rule(ts, starts[i]).result is Ok
            &&& rule(ts, starts[i]).next == starts[i + 1]
        }
    &&& at_end(ts, starts.last())
}

/// An input of N rules that each parse, and nothing else, gives exactly
/// those N rules in source order.
pub proof fn lemma_rules_in_order(ts: Seq<TokenView>, starts: Seq<int>)
    requires
        rules_chain(ts, starts),
    ensures
        rules(ts, starts[0]).result is Ok,
        rules(ts, starts[0]).next == starts.last(),
        rules(ts, starts[0]).result->Ok_0.len() == starts.len() - 1,
        forall|i: int|
            #![trigger starts[i]]
            0 <= i < starts.len() - 1 ==> rule(ts, starts[i]).result == Ok::<
                RuleView,
                ParseFailure,
            >(rules(ts, starts[0]).result->Ok_0[i]),
    decreases starts.len(),
{
    if starts.len() == 1 {
    } else {
        let rest = starts.drop_first();
        assert(starts[1] == rule(ts, starts[0]).next);
        lemma_rule_bounds(ts, starts[0]);
        assert forall|i: int| #![trigger rest[i]] 0 <= i < rest.len() - 1 implies {
            &&& !at_end(ts, rest[i])
            &&& rule(ts, rest[i]).result is Ok
            &&& rule(ts, rest[i]).next == rest[i + 1]
        } by {
            assert(rest[i] == starts[i + 1]);
            assert(rest[i + 1] == starts[i + 2]);
        }
        assert(rest.last() == starts.last());
        lemma_rules_in_order(ts, rest);
        let head = rule(ts, starts[0]).result->Ok_0;
        let tail = rules(ts, rest[0]).result->Ok_0;
        let all = rules(ts, starts[0]).result->Ok_0;
        assert(all == seq![head] + tail);
        assert forall|i: int| #![trigger starts[i]] 0 <= i < starts.len() - 1 implies rule(
            ts,
            starts[i],
        ).result == Ok::<RuleView, ParseFailure>(all[i]) by {
            if i > 0 {
                assert(starts[i] == rest[i - 1]);
                assert(all[i] == tail[i - 1]);
            }
        }
    }
}

/// Rule count preservation: for an input of N rules that each parse, and
/// nothing else, the lowered style sheet has exactly N rules, and its i-th
/// rule is the lowering of the i-th rule of the input.
pub proof fn lemma_rule_count_preserved(ts: Seq<TokenView>, starts: Seq<int>)
    requires
        rules_chain(ts, starts),
        starts[0] == 0,
    ensures
        stylesheet(ts, 0).result is Ok,
        lower(stylesheet(ts, 0).result->Ok_0).rules.len() == starts.len() - 1,
        forall|i: int|
            #![trigger starts[i]]
            0 <= i < starts.len() - 1 ==> lower(stylesheet(ts, 0).result->Ok_0).rules[i]
                == lower_rule(rule(ts, starts[i]).result->Ok_0),
{
    lemma_rules_in_order(ts, starts);
}

/// Rule count preservation for a source text: where the tokens of the text
/// are N rules that each parse, and nothing else, the text comes to exactly
/// N lowered rules in source order.
pub proof fn lemma_source_rule_count_preserved(src: Seq<u8>, starts: Seq<int>)
    requires
        rules_chain(lex(src), starts),
        starts[0] == 0,
    ensures
        css_info(src) is Ok,
        css_info(src)->Ok_0.rules.len() == starts.len() - 1,
        forall|i: int|
            #![trigger starts[i]]
            0 <= i < starts.len() - 1 ==> css_info(src)->Ok_0.rules[i] == lower_rule(
                rule(lex(src), starts[i]).result->Ok_0,
            ),
{
    lemma_rule_count_preserved(lex(src), starts);
}

/// Every rule that was read is well formed: its selector text is derived
/// from its selectors, of which there is at least one and none is empty,
/// and the text of each declaration is derived from its property and value.
pub proof fn lemma_rules_well_formed(ts: Seq<TokenView>, pos: int)
    requires
        0 <= pos,
        rules(ts, pos).result is Ok,
    ensures
        forall|i: int|
            0 <= i < rules(ts, pos).result->Ok_0.len() ==> (#[trigger] rules(
                ts,
                pos,
            ).result->Ok_0[i]).well_formed(),
    decreases ts.len() - pos,
{
    if at_end(ts, pos) {
    } else {
        lemma_rule_bounds(ts, pos);
        let one = rule(ts, pos);
        assert(one.result is Ok);
        lemma_rules_well_formed(ts, one.next);
        let all = rules(ts, pos).result->Ok_0;
        let tail = rules(ts, one.next).result->Ok_0;
        assert(all == seq![one.result->Ok_0] + tail);
        assert forall|i: int| 0 <= i < all.len() implies (#[trigger] all[i]).well_formed() by {
            if i > 0 {
                assert(all[i] == tail[i - 1]);
            }
        }
    }
}

/// A style sheet that was read is well formed.
pub proof fn lemma_stylesheet_well_formed(ts: Seq<TokenView>, pos: int)
    requires
        0 <= pos,
        stylesheet(ts, pos).result is Ok,
    ensures
        stylesheet(ts, pos).result->Ok_0.well_formed(),
{
    lemma_rules_well_formed(ts, pos);
}

/// Declarations that were read are those of the source, four tokens each,
/// in source order.
pub proof fn lemma_declarations_from_tokens(ts: Seq<TokenView>, pos: int)
    requires
        0 <= pos,
        declarations(ts, pos).result is Ok,
    ensures
        ({
            let items = declarations(ts, pos).result->Ok_0;
            &&& declarations(ts, pos).next == pos + 4 * items.len()
            &&& forall|i: int|
                0 <= i < items.len() ==> {
                    &&& (#[trigger] items[i]).property == ts[pos + 4 * i].text
                    &&& items[i].value.text() == ts[pos + 4 * i + 2].text
                }
        }),
    decreases ts.len() - pos,
{
    if kind_at(ts, pos) == TokenType::CurlyRight || at_end(ts, pos) {
    } else {
        let one = declaration(ts, pos);
        assert(one.result is Ok);
        assert(declarations(ts, pos + 4).result is Ok);
        lemma_declarations_from_tokens(ts, pos + 4);
        let items = declarations(ts, pos).result->Ok_0;
        let tail = declarations(ts, pos + 4).result->Ok_0;
        assert(items == seq![one.result->Ok_0] + tail);
        assert forall|i: int| 0 <= i < items.len() implies {
            &&& (#[trigger] items[i]).property == ts[pos + 4 * i].text
            &&& items[i].value.text() == ts[pos + 4 * i + 2].text
        } by {
            if i > 0 {
                assert(items[i] == tail[i - 1]);
                assert(pos + 4 + 4 * (i - 1) == pos + 4 * i);
            }
        }
    }
}

/// Declaration order preservation: within a rule, the i-th declaration of
/// the lowered rule is the i-th declaration of the source. Its property is
/// the text of the first of the four tokens of that declaration and its
/// value is the text of the third.
pub proof fn lemma_declaration_order_preserved(ts: Seq<TokenView>, pos: int)
    requires
        0 <= pos,
        style_rule(ts, pos).result is Ok,
    ensures
        ({
            let body = selectors(ts, pos).next + 1;
            let lowered = lower_rule(RuleView::StyleRule(style_rule(ts, pos).result->Ok_0));
            &&& style_rule(ts, pos).next == body + 4 * lowered.declarations.len() + 1
            &&& forall|i: int|
                0 <= i < lowered.declarations.len() ==> {
                    &&& (#[trigger] lowered.declarations[i]).property == ts[body + 4 * i].text
                    &&& lowered.declarations[i].value == ts[body + 4 * i + 2].text
                }
        }),
{
    lemma_selectors_bounds(ts, pos);
    let body = selectors(ts, pos).next + 1;
    lemma_declarations_from_tokens(ts, body);
}

/// Determinism: lowering is a function of the content of the tree. Two
/// results for trees of equal content are equal, string for string.
pub proof fn lemma_lowering_deterministic(a: StyleSheet, b: StyleSheet, first: HIR, second: HIR)
    requires
        a@ == b@,
        first@ == lower(a@),
        second@ == lower(b@),
    ensures
        first@ == second@,
{
}

} // verus!
