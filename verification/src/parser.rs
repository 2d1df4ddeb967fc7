//! The parser: recursive descent over a token sequence with one token of
//! lookahead. Every parsing function returns what the grammar of `syntax`
//! says for the tokens at the cursor and leaves the cursor where the grammar
//! says reading goes on; after a failure that is the offending token.

use crate::ast::{
    declaration_views, rule_views, selector_views, simple_selector_views, ClassSelector,
    Declaration, IdSelector, LiteralValue, PseudoClassSelector, PseudoElementSelector, Rule,
    Selector, SimpleSelector, StyleRule, StyleSheet, TypeSelector, Value,
};
use crate::error::{Expected, ParseError, UnsupportedKind};
use crate::syntax::{
    at_end, declaration, declarations, fail, kind_at, lemma_prepend_nothing,
    lemma_prepend_twice, lemma_rule_bounds, lemma_selector_bounds, ok, prepend, rule, rules,
    selector, selector_tail, selectors, selectors_tail, simple_selector, style_rule, stylesheet,
    unexpected, unsupported, value,
};
use crate::token::{token_views, Token, TokenType, TokenView};
use std::rc::Rc;
use vstd::prelude::*;

verus! {

/// A token sequence and a cursor into it.
pub struct Parser {
    tokens: Vec<Token>,
    current: usize,
}

impl Parser {
    /// The tokens that the parser reads.
    pub closed spec fn tokens(&self) -> Seq<TokenView> {
        token_views(self.tokens@)
    }

    /// The position of the token that is read next.
    pub closed spec fn cursor(&self) -> int {
        self.current as int
    }

    /// A parser at the first of `tokens`.
    pub fn new(tokens: Vec<Token>) -> (parser: Parser)
        ensures
            parser.tokens() == token_views(tokens@),
            parser.cursor() == 0,
    {
        Self { tokens, current: 0 }
    }

    /// Reads a whole style sheet: rules up to the end of input.
    pub fn parse(&mut self) -> (r: Result<StyleSheet, ParseError>)
        ensures
            final(self).tokens() == old(self).tokens(),
            stylesheet(old(self).tokens(), old(self).cursor()) == match r {
                Ok(sheet) => ok(sheet@, final(self).cursor()),
                Err(e) => fail(e@, final(self).cursor()),
            },
    {
        let ghost ts = self.tokens();
        let ghost start = self.cursor();
        let mut items: Vec<Rule> = Vec::new();
        proof {
            lemma_prepend_nothing(rules(ts, start));
            assert(rule_views(items@) =~= Seq::empty());
        }
        while !self.is_end()
            invariant
                self.tokens() == ts,
                ts == old(self).tokens(),
                start == old(self).cursor(),
                rules(ts, start) == prepend(rule_views(items@), rules(ts, self.cursor())),
            decreases ts.len() - self.cursor(),
        {
            let ghost pos = self.cursor();
            proof {
                lemma_rule_bounds(ts, pos);
            }
            match self.parse_rule() {
                Ok(item) => {
                    proof {
                        lemma_prepend_twice(
                            rule_views(items@),
                            seq![item@],
                            rules(ts, self.cursor()),
                        );
                        assert(rule_views(items@.push(item)) =~= rule_views(items@) + seq![item@]);
                    }
                    items.push(item);
                },
                Err(e) => {
                    return Err(e);
                },
            }
        }
        proof {
            assert(rule_views(items@) + Seq::empty() =~= rule_views(items@));
        }
        Ok(StyleSheet { rules: items })
    }

    /// Reads one rule. An at-rule is refused as unsupported.
    pub fn parse_rule(&mut self) -> (r: Result<Rule, ParseError>)
        ensures
            final(self).tokens() == old(self).tokens(),
            rule(old(self).tokens(), old(self).cursor()) == match r {
                Ok(item) => ok(item@, final(self).cursor()),
                Err(e) => fail(e@, final(self).cursor()),
            },
    {
        if self.check_token_type(TokenType::Atkeyword) {
            Err(
                ParseError::UnsupportedConstruct {
                    kind: UnsupportedKind::MediaRule,
                    line: self.tokens[self.current].line,
                },
            )
        } else {
            match self.parse_style_rule() {
                Ok(item) => Ok(Rule::StyleRule(item)),
                Err(e) => Err(e),
            }
        }
    }

    /// Reads one style rule: selectors, `{`, declarations, `}`.
    pub fn parse_style_rule(&mut self) -> (r: Result<StyleRule, ParseError>)
        ensures
            final(self).tokens() == old(self).tokens(),
            style_rule(old(self).tokens(), old(self).cursor()) == match r {
                Ok(item) => ok(item@, final(self).cursor()),
                Err(e) => fail(e@, final(self).cursor()),
            },
    {
        let selectors = match self.parse_selectors() {
            Ok(items) => items,
            Err(e) => {
                return Err(e);
            },
        };
        if self.consume_next_token(TokenType::CurlyLeft).is_none() {
            return Err(self.unexpected_here(Expected::Category(TokenType::CurlyLeft)));
        }
        let declarations = match self.parse_declarations() {
            Ok(items) => items,
            Err(e) => {
                return Err(e);
            },
        };
        if self.consume_next_token(TokenType::CurlyRight).is_none() {
            return Err(self.unexpected_here(Expected::Category(TokenType::CurlyRight)));
        }
        Ok(StyleRule::new(selectors, declarations))
    }

    /// Reads a selector and every further selector that a comma announces.
    pub fn parse_selectors(&mut self) -> (r: Result<Vec<Selector>, ParseError>)
        ensures
            final(self).tokens() == old(self).tokens(),
            selectors(old(self).tokens(), old(self).cursor()) == match r {
                Ok(items) => ok(selector_views(items@), final(self).cursor()),
                Err(e) => fail(e@, final(self).cursor()),
            },
    {
        let ghost ts = self.tokens();
        let ghost start = self.cursor();
        let mut items: Vec<Selector> = Vec::new();
        let first = match self.parse_selector() {
            Ok(item) => item,
            Err(e) => {
                return Err(e);
            },
        };
        proof {
            assert(selector_views(items@.push(first)) =~= seq![first@]);
        }
        items.push(first);
        while self.check_token_type(TokenType::Comma)
            invariant
                self.tokens() == ts,
                ts == old(self).tokens(),
                start == old(self).cursor(),
                selectors(ts, start) == prepend(
                    selector_views(items@),
                    selectors_tail(ts, self.cursor()),
                ),
            decreases ts.len() - self.cursor(),
        {
            self.step();
            proof {
                lemma_selector_bounds(ts, self.cursor());
            }
            match self.parse_selector() {
                Ok(item) => {
                    proof {
                        lemma_prepend_twice(
                            selector_views(items@),
                            seq![item@],
                            selectors_tail(ts, self.cursor()),
                        );
                        assert(selector_views(items@.push(item)) =~= selector_views(items@)
                            + seq![item@]);
                    }
                    items.push(item);
                },
                Err(e) => {
                    return Err(e);
                },
            }
        }
        proof {
            assert(selector_views(items@) + Seq::empty() =~= selector_views(items@));
        }
        Ok(items)
    }

    /// Reads a simple selector and every further one that a combinator
    /// announces. The combinators themselves are not kept.
    pub fn parse_selector(&mut self) -> (r: Result<Selector, ParseError>)
        ensures
            final(self).tokens() == old(self).tokens(),
            selector(old(self).tokens(), old(self).cursor()) == match r {
                Ok(item) => ok(item@, final(self).cursor()),
                Err(e) => fail(e@, final(self).cursor()),
            },
    {
        let ghost ts = self.tokens();
        let ghost start = self.cursor();
        let mut items: Vec<SimpleSelector> = Vec::new();
        let first = match self.parse_simple_selector() {
            Ok(item) => item,
            Err(e) => {
                return Err(e);
            },
        };
        proof {
            assert(simple_selector_views(items@.push(first)) =~= seq![first@]);
        }
        items.push(first);
        while self.check_token_type(TokenType::Greater) || self.check_token_type(TokenType::Plus)
            || self.check_token_type(TokenType::Tilde)
            invariant
                self.tokens() == ts,
                ts == old(self).tokens(),
                start == old(self).cursor(),
                simple_selector(ts, start).result is Ok,
                prepend(seq![simple_selector(ts, start).result->Ok_0], selector_tail(ts, start + 1))
                    == prepend(simple_selector_views(items@), selector_tail(ts, self.cursor())),
            decreases ts.len() - self.cursor(),
        {
            self.step();
            match self.parse_simple_selector() {
                Ok(item) => {
                    proof {
                        lemma_prepend_twice(
                            simple_selector_views(items@),
                            seq![item@],
                            selector_tail(ts, self.cursor()),
                        );
                        assert(simple_selector_views(items@.push(item)) =~= simple_selector_views(
                            items@,
                        ) + seq![item@]);
                    }
                    items.push(item);
                },
                Err(e) => {
                    return Err(e);
                },
            }
        }
        proof {
            assert(simple_selector_views(items@) + Seq::empty() =~= simple_selector_views(
                items@,
            ));
        }
        Ok(Selector { simple_selectors: items })
    }

    /// Reads one simple selector: the category of the token at the cursor
    /// decides which.
    pub fn parse_simple_selector(&mut self) -> (r: Result<SimpleSelector, ParseError>)
        ensures
            final(self).tokens() == old(self).tokens(),
            simple_selector(old(self).tokens(), old(self).cursor()) == match r {
                Ok(item) => ok(item@, final(self).cursor()),
                Err(e) => fail(e@, final(self).cursor()),
            },
    {
        if self.is_end() {
            return Err(ParseError::UnexpectedEndOfInput);
        }
        let token = &self.tokens[self.current];
        let item = match token.token_type {
            TokenType::Ident => SimpleSelector::Type(
                TypeSelector { element: token.lexeme.clone() },
            ),
            TokenType::ClassSelector => SimpleSelector::Class(
                ClassSelector { class_name: token.lexeme.clone() },
            ),
            TokenType::IdSelector => SimpleSelector::Id(IdSelector { id: token.lexeme.clone() }),
            TokenType::PseudoClassSelector => SimpleSelector::PseudoClass(
                PseudoClassSelector { ident: token.lexeme.clone() },
            ),
            TokenType::PseudoElementSelector => SimpleSelector::PseudoElement(
                PseudoElementSelector { ident: token.lexeme.clone() },
            ),
            _ => {
                return Err(self.unexpected_here(Expected::SimpleSelector));
            },
        };
        self.step();
        Ok(item)
    }

    /// Reads declarations up to a `}` or the end of input.
    pub fn parse_declarations(&mut self) -> (r: Result<Vec<Declaration>, ParseError>)
        ensures
            final(self).tokens() == old(self).tokens(),
            declarations(old(self).tokens(), old(self).cursor()) == match r {
                Ok(items) => ok(declaration_views(items@), final(self).cursor()),
                Err(e) => fail(e@, final(self).cursor()),
            },
    {
        let ghost ts = self.tokens();
        let ghost start = self.cursor();
        let mut items: Vec<Declaration> = Vec::new();
        proof {
            lemma_prepend_nothing(declarations(ts, start));
            assert(declaration_views(items@) =~= Seq::empty());
        }
        while !self.check_token_type(TokenType::CurlyRight) && !self.is_end()
            invariant
                self.tokens() == ts,
                ts == old(self).tokens(),
                start == old(self).cursor(),
                declarations(ts, start) == prepend(
                    declaration_views(items@),
                    declarations(ts, self.cursor()),
                ),
            decreases ts.len() - self.cursor(),
        {
            match self.parse_declaration() {
                Ok(item) => {
                    proof {
                        lemma_prepend_twice(
                            declaration_views(items@),
                            seq![item@],
                            declarations(ts, self.cursor()),
                        );
                        assert(declaration_views(items@.push(item)) =~= declaration_views(items@)
                            + seq![item@]);
                    }
                    items.push(item);
                },
                Err(e) => {
                    return Err(e);
                },
            }
        }
        proof {
            assert(declaration_views(items@) + Seq::empty() =~= declaration_views(items@));
        }
        Ok(items)
    }

    /// Reads one declaration: property, `:`, value, `;`.
    pub fn parse_declaration(&mut self) -> (r: Result<Declaration, ParseError>)
        ensures
            final(self).tokens() == old(self).tokens(),
            declaration(old(self).tokens(), old(self).cursor()) == match r {
                Ok(item) => ok(item@, final(self).cursor()),
                Err(e) => fail(e@, final(self).cursor()),
            },
    {
        let property = match self.consume_next_token(TokenType::Ident) {
            Some(token) => token.lexeme.clone(),
            None => {
                return Err(self.unexpected_here(Expected::Category(TokenType::Ident)));
            },
        };
        if self.consume_next_token(TokenType::Colon).is_none() {
            return Err(self.unexpected_here(Expected::Category(TokenType::Colon)));
        }
        let value = match self.parse_value() {
            Ok(value) => value,
            Err(e) => {
                return Err(e);
            },
        };
        if self.consume_next_token(TokenType::Semicolon).is_none() {
            return Err(self.unexpected_here(Expected::Category(TokenType::Semicolon)));
        }
        Ok(Declaration::new(property, value))
    }

    /// Reads one value: an identifier, a number, a percentage or a
    /// dimension. Strings, functions, URLs and colours are refused as
    /// unsupported.
    pub fn parse_value(&mut self) -> (r: Result<Value, ParseError>)
        ensures
            final(self).tokens() == old(self).tokens(),
            value(old(self).tokens(), old(self).cursor()) == match r {
                Ok(item) => ok(item@, final(self).cursor()),
                Err(e) => fail(e@, final(self).cursor()),
            },
    {
        if self.is_end() {
            return Err(ParseError::UnexpectedEndOfInput);
        }
        let token = &self.tokens[self.current];
        let line = token.line;
        let literal = match token.token_type {
            TokenType::Ident => LiteralValue::Ident(token.lexeme.clone()),
            TokenType::Number => LiteralValue::Number(token.lexeme.clone()),
            TokenType::Percentage => LiteralValue::Percentage(token.lexeme.clone()),
            TokenType::Dimension => LiteralValue::Dimension(token.lexeme.clone()),
            TokenType::String => {
                return Err(
                    ParseError::UnsupportedConstruct { kind: UnsupportedKind::StringValue, line },
                );
            },
            TokenType::Function => {
                return Err(
                    ParseError::UnsupportedConstruct { kind: UnsupportedKind::FunctionValue, line },
                );
            },
            TokenType::Uri => {
                return Err(
                    ParseError::UnsupportedConstruct { kind: UnsupportedKind::UrlValue, line },
                );
            },
            TokenType::Hash | TokenType::IdSelector => {
                return Err(
                    ParseError::UnsupportedConstruct { kind: UnsupportedKind::ColorValue, line },
                );
            },
            _ => {
                return Err(self.unexpected_here(Expected::Value));
            },
        };
        self.step();
        Ok(Value { value: literal })
    }

    /// Moves past the token at the cursor if its category is one of
    /// `token_types`, and says whether it did.
    pub fn match_token(&mut self, token_types: &[TokenType]) -> (matched: bool)
        ensures
            final(self).tokens() == old(self).tokens(),
            matched == (!at_end(old(self).tokens(), old(self).cursor()) && token_types@.contains(
                kind_at(old(self).tokens(), old(self).cursor()),
            )),
            final(self).cursor() == if matched {
                old(self).cursor() + 1
            } else {
                old(self).cursor()
            },
    {
        let mut i: usize = 0;
        while i < token_types.len()
            invariant
                *self == *old(self),
                forall|j: int|
                    0 <= j < i ==> !(!at_end(self.tokens(), self.cursor()) && token_types@[j]
                        == kind_at(self.tokens(), self.cursor())),
            decreases token_types.len() - i,
        {
            if self.check_token_type(token_types[i]) {
                self.step();
                return true;
            }
            i += 1;
        }
        false
    }

    /// Moves the cursor one token on, unless the input has ended, and
    /// returns the token before the cursor.
    pub fn advance(&mut self) -> (token: Rc<Token>)
        requires
            !at_end(old(self).tokens(), old(self).cursor()) || 0 < old(self).cursor() <= old(
                self,
            ).tokens().len(),
        ensures
            final(self).tokens() == old(self).tokens(),
            final(self).cursor() == if at_end(old(self).tokens(), old(self).cursor()) {
                old(self).cursor()
            } else {
                old(self).cursor() + 1
            },
            (*token)@ == old(self).tokens()[final(self).cursor() - 1],
    {
        if !self.is_end() {
            self.step();
        }
        self.previous_token()
    }

    /// Moves past the token at the cursor if it is of category `token_type`
    /// and returns it.
    pub fn consume_next_token(&mut self, token_type: TokenType) -> (token: Option<Rc<Token>>)
        ensures
            final(self).tokens() == old(self).tokens(),
            token is Some == (!at_end(old(self).tokens(), old(self).cursor()) && kind_at(
                old(self).tokens(),
                old(self).cursor(),
            ) == token_type),
            token matches Some(t) ==> (*t)@ == old(self).tokens()[old(self).cursor()],
            final(self).cursor() == if token is Some {
                old(self).cursor() + 1
            } else {
                old(self).cursor()
            },
    {
        if self.check_token_type(token_type) {
            return Some(self.advance());
        }
        None
    }

    /// Tests whether the token at the cursor is of category `token_type`.
    /// At the end of input no category is found.
    pub fn check_token_type(&self, token_type: TokenType) -> (r: bool)
        ensures
            r == (!at_end(self.tokens(), self.cursor()) && kind_at(self.tokens(), self.cursor())
                == token_type),
    {
        if self.is_end() {
            return false;
        }
        self.tokens[self.current].token_type == token_type
    }

    /// The token at the cursor.
    pub fn current_token(&self) -> (token: Rc<Token>)
        requires
            0 <= self.cursor() < self.tokens().len(),
        ensures
            (*token)@ == self.tokens()[self.cursor()],
    {
        Rc::new(self.tokens[self.current].clone())
    }

    /// The token before the cursor.
    pub fn previous_token(&self) -> (token: Rc<Token>)
        requires
            0 < self.cursor() <= self.tokens().len(),
        ensures
            (*token)@ == self.tokens()[self.cursor() - 1],
    {
        Rc::new(self.tokens[self.current - 1].clone())
    }

    /// The token after the cursor.
    pub fn next_token(&self) -> (token: Rc<Token>)
        requires
            0 <= self.cursor() + 1 < self.tokens().len(),
        ensures
            (*token)@ == self.tokens()[self.cursor() + 1],
    {
        assert(self.tokens.len() == self.tokens@.len());
        Rc::new(self.tokens[self.current + 1].clone())
    }

    /// Tests whether the input has ended: the cursor stands on the
    /// end-of-input token or beyond the last token.
    pub fn is_end(&self) -> (r: bool)
        ensures
            r == at_end(self.tokens(), self.cursor()),
    {
        self.current >= self.tokens.len() || self.tokens[self.current].token_type
            == TokenType::Eof
    }

    /// Moves the cursor one token on.
    fn step(&mut self)
        requires
            0 <= old(self).cursor() < old(self).tokens().len(),
        ensures
            final(self).tokens() == old(self).tokens(),
            final(self).cursor() == old(self).cursor() + 1,
    {
        assert(self.tokens.len() == self.tokens@.len());
        self.current += 1;
    }

    /// The failure for the token at the cursor where `expected` was needed.
    fn unexpected_here(&self, expected: Expected) -> (e: ParseError)
        ensures
            e@ == unexpected(self.tokens(), self.cursor(), expected),
    {
        if self.is_end() {
            ParseError::UnexpectedEndOfInput
        } else {
            let token = &self.tokens[self.current];
            ParseError::UnexpectedToken { expected, found: token.token_type, line: token.line }
        }
    }
}

} // verus!
