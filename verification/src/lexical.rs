//! The lexical grammar: which bytes form a token of each category, in which
//! order the categories are tried, and the token sequence of a whole text.
//!
//! Everything here works on the UTF-8 bytes of the source. All bytes that the
//! grammar gives a meaning to are ASCII; any other byte only ever occurs
//! inside a string literal or a comment, or is skipped.

use crate::error::UnrecognizedView;
use crate::text::is_ascii_byte;
use crate::token::{TokenType, TokenView};
use vstd::prelude::*;
use vstd::utf8::*;

verus! {

pub const TAB: u8 = 0x09;

pub const LINE_FEED: u8 = 0x0a;

pub const FORM_FEED: u8 = 0x0c;

pub const CARRIAGE_RETURN: u8 = 0x0d;

pub const SPACE: u8 = 0x20;

pub const QUOTE: u8 = 0x22;

pub const HASH: u8 = 0x23;

pub const PERCENT: u8 = 0x25;

pub const PAREN_LEFT: u8 = 0x28;

pub const PAREN_RIGHT: u8 = 0x29;

pub const STAR: u8 = 0x2a;

pub const PLUS: u8 = 0x2b;

pub const COMMA: u8 = 0x2c;

pub const HYPHEN: u8 = 0x2d;

pub const DOT: u8 = 0x2e;

pub const SLASH: u8 = 0x2f;

pub const COLON: u8 = 0x3a;

pub const SEMICOLON: u8 = 0x3b;

pub const GREATER: u8 = 0x3e;

pub const AT: u8 = 0x40;

pub const BRACKET_LEFT: u8 = 0x5b;

pub const BRACKET_RIGHT: u8 = 0x5d;

pub const UNDERSCORE: u8 = 0x5f;

pub const CURLY_LEFT: u8 = 0x7b;

pub const CURLY_RIGHT: u8 = 0x7d;

pub const TILDE: u8 = 0x7e;

/// `A`..`Z` or `a`..`z`.
pub open spec fn is_letter(b: u8) -> bool {
    (0x41 <= b <= 0x5a) || (0x61 <= b <= 0x7a)
}

/// `0`..`9`.
pub open spec fn is_digit(b: u8) -> bool {
    0x30 <= b <= 0x39
}

/// A byte that may begin an identifier: a letter or an underscore.
pub open spec fn is_ident_start(b: u8) -> bool {
    is_letter(b) || b == UNDERSCORE
}

/// A byte that may continue an identifier: a letter, a digit, a hyphen or an
/// underscore.
pub open spec fn is_ident_part(b: u8) -> bool {
    is_letter(b) || is_digit(b) || b == HYPHEN || b == UNDERSCORE
}

/// Space, tab, carriage return, line feed or form feed.
pub open spec fn is_space(b: u8) -> bool {
    b == SPACE || b == TAB || b == CARRIAGE_RETURN || b == LINE_FEED || b == FORM_FEED
}

/// The classes of bytes of which the grammar takes maximal runs.
#[derive(Debug, Clone, Copy, PartialEq, Eq, Structural)]
pub enum ByteClass {
    IdentPart,
    Digit,
    Space,
}

impl ByteClass {
    /// True when `b` belongs to the class.
    pub open spec fn holds(self, b: u8) -> bool {
        match self {
            ByteClass::IdentPart => is_ident_part(b),
            ByteClass::Digit => is_digit(b),
            ByteClass::Space => is_space(b),
        }
    }

    /// Tests whether `b` belongs to the class.
    pub fn contains(self, b: u8) -> (r: bool)
        ensures
            r == self.holds(b),
    {
        match self {
            ByteClass::IdentPart => {
                (0x41 <= b && b <= 0x5a) || (0x61 <= b && b <= 0x7a) || (0x30 <= b && b <= 0x39)
                    || b == HYPHEN || b == UNDERSCORE
            },
            ByteClass::Digit => 0x30 <= b && b <= 0x39,
            ByteClass::Space => {
                b == SPACE || b == TAB || b == CARRIAGE_RETURN || b == LINE_FEED || b == FORM_FEED
            },
        }
    }
}

/// The end of the longest run of bytes of `class` that starts at `pos`
/// (`pos` itself where the run is empty).
pub open spec fn run_end(src: Seq<u8>, pos: int, class: ByteClass) -> int
    decreases src.len() - pos,
{
    if 0 <= pos < src.len() && class.holds(src[pos]) {
        run_end(src, pos + 1, class)
    } else {
        pos
    }
}

/// The first position at or after `from` that holds the byte `b`.
pub open spec fn find_byte(src: Seq<u8>, from: int, b: u8) -> Option<int>
    decreases src.len() - from,
{
    if from < 0 || from >= src.len() {
        None
    } else if src[from] == b {
        Some(from)
    } else {
        find_byte(src, from + 1, b)
    }
}

/// The first position at or after `from` at which `*/` stands.
pub open spec fn find_comment_close(src: Seq<u8>, from: int) -> Option<int>
    decreases src.len() - from,
{
    if from < 0 || from + 1 >= src.len() {
        None
    } else if src[from] == STAR && src[from + 1] == SLASH {
        Some(from)
    } else {
        find_comment_close(src, from + 1)
    }
}

/// An identifier at `pos`: a start byte and the longest run of identifier
/// bytes after it, `[a-zA-Z_][a-zA-Z0-9_-]*`. The result is the end of the
/// match.
pub open spec fn ident_end(src: Seq<u8>, pos: int) -> Option<int> {
    if 0 <= pos < src.len() && is_ident_start(src[pos]) {
        Some(run_end(src, pos + 1, ByteClass::IdentPart))
    } else {
        None
    }
}

/// The byte `prefix` at `pos`, directly followed by an identifier.
pub open spec fn prefixed_ident_end(src: Seq<u8>, pos: int, prefix: u8) -> Option<int> {
    if 0 <= pos < src.len() && src[pos] == prefix {
        ident_end(src, pos + 1)
    } else {
        None
    }
}

/// A double quote at `pos` and everything up to the next double quote,
/// `"[^"]*"`. Nothing escapes a quote.
pub open spec fn string_end(src: Seq<u8>, pos: int) -> Option<int> {
    if 0 <= pos < src.len() && src[pos] == QUOTE {
        match find_byte(src, pos + 1, QUOTE) {
            Some(close) => Some(close + 1),
            None => None,
        }
    } else {
        None
    }
}

/// The longest run of digits at `pos`, which must not be empty: `[0-9]+`.
pub open spec fn number_end(src: Seq<u8>, pos: int) -> Option<int> {
    if 0 <= pos < src.len() && is_digit(src[pos]) {
        Some(run_end(src, pos, ByteClass::Digit))
    } else {
        None
    }
}

/// A number directly followed by `%`.
pub open spec fn percentage_end(src: Seq<u8>, pos: int) -> Option<int> {
    match number_end(src, pos) {
        Some(digits) => if digits < src.len() && src[digits] == PERCENT {
            Some(digits + 1)
        } else {
            None
        },
        None => None,
    }
}

/// A number directly followed by an identifier.
pub open spec fn dimension_end(src: Seq<u8>, pos: int) -> Option<int> {
    match number_end(src, pos) {
        Some(digits) => ident_end(src, digits),
        None => None,
    }
}

/// The single byte `b` at `pos`.
pub open spec fn byte_end(src: Seq<u8>, pos: int, b: u8) -> Option<int> {
    if 0 <= pos < src.len() && src[pos] == b {
        Some(pos + 1)
    } else {
        None
    }
}

/// The longest run of whitespace at `pos`, which must not be empty:
/// `[ \t\r\n\f]+`.
pub open spec fn space_end(src: Seq<u8>, pos: int) -> Option<int> {
    if 0 <= pos < src.len() && is_space(src[pos]) {
        Some(run_end(src, pos, ByteClass::Space))
    } else {
        None
    }
}

/// `/*` at `pos` and everything up to and including the first `*/` after
/// it, `/\*[^*]*\*+([^/*][^*]*\*+)*/`. The star of the opening does not close
/// the comment.
pub open spec fn comment_end(src: Seq<u8>, pos: int) -> Option<int> {
    if 0 <= pos && pos + 1 < src.len() && src[pos] == SLASH && src[pos + 1] == STAR {
        match find_comment_close(src, pos + 2) {
            Some(close) => Some(close + 2),
            None => None,
        }
    } else {
        None
    }
}

/// Where a token of category `kind` that starts at `pos` ends, if there is
/// one. Categories that the lexer never produces match nowhere.
pub open spec fn match_end(kind: TokenType, src: Seq<u8>, pos: int) -> Option<int> {
    match kind {
        TokenType::ClassSelector => prefixed_ident_end(src, pos, DOT),
        TokenType::IdSelector => prefixed_ident_end(src, pos, HASH),
        TokenType::Ident => ident_end(src, pos),
        TokenType::Atkeyword => prefixed_ident_end(src, pos, AT),
        TokenType::String => string_end(src, pos),
        TokenType::Percentage => percentage_end(src, pos),
        TokenType::Dimension => dimension_end(src, pos),
        TokenType::Number => number_end(src, pos),
        TokenType::Colon => byte_end(src, pos, COLON),
        TokenType::Semicolon => byte_end(src, pos, SEMICOLON),
        TokenType::CurlyLeft => byte_end(src, pos, CURLY_LEFT),
        TokenType::CurlyRight => byte_end(src, pos, CURLY_RIGHT),
        TokenType::ParenLeft => byte_end(src, pos, PAREN_LEFT),
        TokenType::ParenRight => byte_end(src, pos, PAREN_RIGHT),
        TokenType::BracketLeft => byte_end(src, pos, BRACKET_LEFT),
        TokenType::BracketRight => byte_end(src, pos, BRACKET_RIGHT),
        TokenType::Comma => byte_end(src, pos, COMMA),
        TokenType::Greater => byte_end(src, pos, GREATER),
        TokenType::Plus => byte_end(src, pos, PLUS),
        TokenType::Tilde => byte_end(src, pos, TILDE),
        TokenType::S => space_end(src, pos),
        TokenType::Comment => comment_end(src, pos),
        _ => None,
    }
}

/// The categories in the order in which they are tried at each position.
/// Percentage and dimension stand before number, of which they are
/// extensions.
pub open spec fn priority() -> Seq<TokenType> {
    seq![
        TokenType::ClassSelector,
        TokenType::IdSelector,
        TokenType::Ident,
        TokenType::Atkeyword,
        TokenType::String,
        TokenType::Percentage,
        TokenType::Dimension,
        TokenType::Number,
        TokenType::Colon,
        TokenType::Semicolon,
        TokenType::CurlyLeft,
        TokenType::CurlyRight,
        TokenType::ParenLeft,
        TokenType::ParenRight,
        TokenType::BracketLeft,
        TokenType::BracketRight,
        TokenType::Comma,
        TokenType::Greater,
        TokenType::Plus,
        TokenType::Tilde,
        TokenType::S,
        TokenType::Comment,
    ]
}

/// The first category of `table`, from index `k` on, that matches at `pos`,
/// with the end of its match.
pub open spec fn first_match_from(table: Seq<TokenType>, src: Seq<u8>, pos: int, k: int) -> Option<
    (TokenType, int),
>
    decreases table.len() - k,
{
    if k < 0 || k >= table.len() {
        None
    } else {
        match match_end(table[k], src, pos) {
            Some(end) => Some((table[k], end)),
            None => first_match_from(table, src, pos, k + 1),
        }
    }
}

/// The category that wins at `pos`, with the end of its match.
pub open spec fn first_match(src: Seq<u8>, pos: int) -> Option<(TokenType, int)> {
    first_match_from(priority(), src, pos, 0)
}

/// Whitespace and comments are recognised but leave no token.
pub open spec fn is_elided(kind: TokenType) -> bool {
    kind == TokenType::S || kind == TokenType::Comment
}

/// The number of line feeds in `src` from `from` up to `to`.
pub open spec fn newlines(src: Seq<u8>, from: int, to: int) -> nat
    decreases to - from,
{
    if from < 0 || to > src.len() || from >= to {
        0
    } else if src[to - 1] == LINE_FEED {
        newlines(src, from, to - 1) + 1
    } else {
        newlines(src, from, to - 1)
    }
}

/// The end-of-input token on line `line`.
pub open spec fn eof_token(line: nat) -> TokenView {
    TokenView { kind: TokenType::Eof, text: Seq::empty(), line }
}

/// The tokens of `src` from byte `pos` on, where the line counter stands at
/// `line`. At each position the first matching category of the priority
/// table decides; a byte at which none matches is skipped. The sequence ends
/// with the end-of-input token.
pub open spec fn lex_from(src: Seq<u8>, pos: int, line: nat) -> Seq<TokenView>
    decreases src.len() - pos,
{
    if pos < 0 || pos >= src.len() {
        seq![eof_token(line)]
    } else {
        match first_match(src, pos) {
            None => lex_from(src, pos + 1, line),
            Some((kind, end)) => {
                proof {
                    lemma_first_match_bounds(src, pos);
                }
                if is_elided(kind) {
                    lex_from(src, end, line + newlines(src, pos, end))
                } else {
                    seq![
                        TokenView { kind, text: decode_utf8(src.subrange(pos, end)), line },
                    ] + lex_from(src, end, line)
                }
            },
        }
    }
}

/// The bytes of `src` from `pos` on at which no category matches, in order,
/// each with the line on which it stands. These are the bytes that
/// `lex_from` skips.
pub open spec fn unrecognized_from(src: Seq<u8>, pos: int, line: nat) -> Seq<UnrecognizedView>
    decreases src.len() - pos,
{
    if pos < 0 || pos >= src.len() {
        Seq::empty()
    } else {
        match first_match(src, pos) {
            None => seq![UnrecognizedView { line, offset: pos as nat }] + unrecognized_from(
                src,
                pos + 1,
                line,
            ),
            Some((kind, end)) => {
                proof {
                    lemma_first_match_bounds(src, pos);
                }
                if is_elided(kind) {
                    unrecognized_from(src, end, line + newlines(src, pos, end))
                } else {
                    unrecognized_from(src, end, line)
                }
            },
        }
    }
}

/// The bytes of a whole text at which no category matches.
pub open spec fn unrecognized(src: Seq<u8>) -> Seq<UnrecognizedView> {
    unrecognized_from(src, 0, 1)
}

/// The tokens of a whole text. Lines are counted from 1.
pub open spec fn lex(src: Seq<u8>) -> Seq<TokenView> {
    lex_from(src, 0, 1)
}

/// The value of the line counter after the text from `pos` on has been read.
pub open spec fn final_line(src: Seq<u8>, pos: int, line: nat) -> nat {
    lex_from(src, pos, line).last().line
}

/// A run stays inside the text, holds only bytes of its class, and cannot be
/// extended.
pub proof fn lemma_run_end(src: Seq<u8>, pos: int, class: ByteClass)
    requires
        0 <= pos <= src.len(),
    ensures
        pos <= run_end(src, pos, class) <= src.len(),
        forall|j: int| pos <= j < run_end(src, pos, class) ==> class.holds(#[trigger] src[j]),
        run_end(src, pos, class) < src.len() ==> !class.holds(src[run_end(src, pos, class)]),
    decreases src.len() - pos,
{
    if pos < src.len() && class.holds(src[pos]) {
        lemma_run_end(src, pos + 1, class);
    }
}

/// What `find_byte` finds is the first occurrence.
pub proof fn lemma_find_byte(src: Seq<u8>, from: int, b: u8)
    requires
        0 <= from,
    ensures
        match find_byte(src, from, b) {
            Some(at) => from <= at < src.len() && src[at] == b && forall|j: int|
                from <= j < at ==> #[trigger] src[j] != b,
            None => forall|j: int| from <= j < src.len() ==> #[trigger] src[j] != b,
        },
    decreases src.len() - from,
{
    if from < src.len() && src[from] != b {
        lemma_find_byte(src, from + 1, b);
    }
}

/// What `find_comment_close` finds is the first `*/`.
pub proof fn lemma_find_comment_close(src: Seq<u8>, from: int)
    requires
        0 <= from,
    ensures
        match find_comment_close(src, from) {
            Some(at) => from <= at && at + 1 < src.len() && src[at] == STAR && src[at + 1]
                == SLASH && forall|j: int|
                from <= j < at ==> !(#[trigger] src[j] == STAR && src[j + 1] == SLASH),
            None => forall|j: int|
                from <= j && j + 1 < src.len() ==> !(#[trigger] src[j] == STAR && src[j + 1]
                    == SLASH),
        },
    decreases src.len() - from,
{
    if from + 1 < src.len() && !(src[from] == STAR && src[from + 1] == SLASH) {
        lemma_find_comment_close(src, from + 1);
    }
}

/// A match is never empty, stays inside the text, and begins and ends with
/// an ASCII byte.
pub proof fn lemma_match_bounds(kind: TokenType, src: Seq<u8>, pos: int)
    requires
        match_end(kind, src, pos) is Some,
    ensures
        0 <= pos < match_end(kind, src, pos)->0 <= src.len(),
        is_ascii_byte(src[pos]),
        is_ascii_byte(src[match_end(kind, src, pos)->0 - 1]),
{
    match kind {
        TokenType::ClassSelector | TokenType::IdSelector | TokenType::Atkeyword => {
            lemma_run_end(src, pos + 2, ByteClass::IdentPart);
        },
        TokenType::Ident => {
            lemma_run_end(src, pos + 1, ByteClass::IdentPart);
        },
        TokenType::String => {
            lemma_find_byte(src, pos + 1, QUOTE);
        },
        TokenType::Percentage | TokenType::Number => {
            lemma_run_end(src, pos, ByteClass::Digit);
        },
        TokenType::Dimension => {
            lemma_run_end(src, pos, ByteClass::Digit);
            let digits = run_end(src, pos, ByteClass::Digit);
            lemma_run_end(src, digits + 1, ByteClass::IdentPart);
        },
        TokenType::S => {
            lemma_run_end(src, pos, ByteClass::Space);
        },
        TokenType::Comment => {
            lemma_find_comment_close(src, pos + 2);
        },
        _ => {},
    }
}

/// The winning category is one of the table, and its match obeys
/// `lemma_match_bounds`.
pub proof fn lemma_first_match_from(table: Seq<TokenType>, src: Seq<u8>, pos: int, k: int)
    requires
        0 <= k,
        first_match_from(table, src, pos, k) is Some,
    ensures
        ({
            let (kind, end) = first_match_from(table, src, pos, k)->0;
            &&& match_end(kind, src, pos) == Some(end)
            &&& exists|i: int| k <= i < table.len() && table[i] == kind
            &&& 0 <= pos < end <= src.len()
            &&& is_ascii_byte(src[pos])
            &&& is_ascii_byte(src[end - 1])
        }),
    decreases table.len() - k,
{
    if k < table.len() {
        match match_end(table[k], src, pos) {
            Some(end) => {
                lemma_match_bounds(table[k], src, pos);
                assert(k <= k < table.len() && table[k] == table[k]);
            },
            None => {
                lemma_first_match_from(table, src, pos, k + 1);
                let (kind, end) = first_match_from(table, src, pos, k)->0;
                let i = choose|i: int| k + 1 <= i < table.len() && table[i] == kind;
                assert(k <= i < table.len() && table[i] == kind);
            },
        }
    }
}

/// A token that is matched at `pos` ends after `pos` and inside the text.
pub proof fn lemma_first_match_bounds(src: Seq<u8>, pos: int)
    ensures
        first_match(src, pos) matches Some((kind, end)) ==> {
            &&& match_end(kind, src, pos) == Some(end)
            &&& priority().contains(kind)
            &&& 0 <= pos < end <= src.len()
            &&& is_ascii_byte(src[pos])
            &&& is_ascii_byte(src[end - 1])
        },
{
    if first_match(src, pos) is Some {
        lemma_first_match_from(priority(), src, pos, 0);
    }
}

/// A token sequence ends with exactly one end-of-input token. Every token
/// before it belongs to a category of the priority table that is not
/// elided, and its line is not before the line at which reading began.
pub proof fn lemma_lex_from_shape(src: Seq<u8>, pos: int, line: nat)
    ensures
        lex_from(src, pos, line).len() >= 1,
        lex_from(src, pos, line).last().kind == TokenType::Eof,
        lex_from(src, pos, line).last().text == Seq::<char>::empty(),
        forall|i: int|
            0 <= i < lex_from(src, pos, line).len() - 1 ==> {
                let kind = (#[trigger] lex_from(src, pos, line)[i]).kind;
                kind != TokenType::Eof && !is_elided(kind) && priority().contains(kind)
            },
        forall|i: int|
            0 <= i < lex_from(src, pos, line).len() ==> line <= (#[trigger] lex_from(
                src,
                pos,
                line,
            )[i]).line,
    decreases src.len() - pos,
{
    if pos < 0 || pos >= src.len() {
    } else {
        lemma_first_match_bounds(src, pos);
        match first_match(src, pos) {
            None => {
                lemma_lex_from_shape(src, pos + 1, line);
            },
            Some((kind, end)) => {
                if is_elided(kind) {
                    lemma_lex_from_shape(src, end, line + newlines(src, pos, end));
                } else {
                    lemma_lex_from_shape(src, end, line);
                    assert(kind != TokenType::Eof);
                }
            },
        }
    }
}

} // verus!
