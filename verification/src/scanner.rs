//! Executable matchers for the lexical grammar, each proved equal to its
//! definition in `lexical`, and the loop that turns a text into tokens.

use crate::error::{unrecognized_views, UnrecognizedCharacter, UnrecognizedView};
use crate::lexical::{
    byte_end, comment_end, dimension_end, eof_token, final_line, find_byte, find_comment_close,
    first_match_from, ident_end, is_ident_start, lemma_find_byte, lemma_find_comment_close,
    lemma_first_match_bounds, lemma_lex_from_shape, lex_from, match_end, newlines, number_end,
    percentage_end, prefixed_ident_end, priority, run_end, space_end, string_end,
    unrecognized_from, ByteClass, AT, BRACKET_LEFT, BRACKET_RIGHT, COLON, COMMA, CURLY_LEFT,
    CURLY_RIGHT, DOT, GREATER, HASH, LINE_FEED, PAREN_LEFT, PAREN_RIGHT, PERCENT, PLUS, QUOTE,
    SEMICOLON, SLASH, STAR, TILDE, UNDERSCORE,
};
use crate::text::substring;
use crate::token::{token_views, Token, TokenType};
use vstd::prelude::*;
use vstd::string::*;

verus! {

/// An executable end position read as a position of the grammar.
pub open spec fn end_view(r: Option<usize>) -> Option<int> {
    match r {
        Some(end) => Some(end as int),
        None => None,
    }
}

/// An executable match read as a match of the grammar.
pub open spec fn match_view(r: Option<(TokenType, usize)>) -> Option<(TokenType, int)> {
    match r {
        Some((kind, end)) => Some((kind, end as int)),
        None => None,
    }
}

/// Tests whether `b` may begin an identifier.
pub fn ident_start(b: u8) -> (r: bool)
    ensures
        r == is_ident_start(b),
{
    (0x41 <= b && b <= 0x5a) || (0x61 <= b && b <= 0x7a) || b == UNDERSCORE
}

/// Finds the end of the longest run of bytes of `class` that starts at `pos`.
pub fn scan_run(bytes: &[u8], pos: usize, class: ByteClass) -> (end: usize)
    ensures
        end as int == run_end(bytes@, pos as int, class),
{
    let mut i: usize = pos;
    while i < bytes.len() && class.contains(bytes[i])
        invariant
            pos <= i,
            run_end(bytes@, pos as int, class) == run_end(bytes@, i as int, class),
        decreases bytes.len() - i,
    {
        i += 1;
    }
    i
}

/// Finds the first position at or after `from` that holds `b`.
pub fn scan_for(bytes: &[u8], from: usize, b: u8) -> (r: Option<usize>)
    ensures
        end_view(r) == find_byte(bytes@, from as int, b),
{
    let mut i: usize = from;
    while i < bytes.len()
        invariant
            from <= i,
            find_byte(bytes@, from as int, b) == find_byte(bytes@, i as int, b),
        decreases bytes.len() - i,
    {
        if bytes[i] == b {
            return Some(i);
        }
        i += 1;
    }
    None
}

/// Finds the first position at or after `from` at which `*/` stands.
pub fn scan_for_comment_close(bytes: &[u8], from: usize) -> (r: Option<usize>)
    ensures
        end_view(r) == find_comment_close(bytes@, from as int),
{
    let n: usize = bytes.len();
    if n < 2 {
        return None;
    }
    let mut i: usize = from;
    while i < n - 1
        invariant
            n == bytes@.len(),
            n >= 2,
            from <= i,
            find_comment_close(bytes@, from as int) == find_comment_close(bytes@, i as int),
        decreases n - i,
    {
        if bytes[i] == STAR && bytes[i + 1] == SLASH {
            return Some(i);
        }
        i += 1;
    }
    None
}

/// Matches an identifier at `pos`.
pub fn match_ident(bytes: &[u8], pos: usize) -> (r: Option<usize>)
    ensures
        end_view(r) == ident_end(bytes@, pos as int),
{
    if pos < bytes.len() && ident_start(bytes[pos]) {
        Some(scan_run(bytes, pos + 1, ByteClass::IdentPart))
    } else {
        None
    }
}

/// Matches the byte `prefix` and an identifier after it at `pos`.
pub fn match_prefixed_ident(bytes: &[u8], pos: usize, prefix: u8) -> (r: Option<usize>)
    ensures
        end_view(r) == prefixed_ident_end(bytes@, pos as int, prefix),
{
    if pos < bytes.len() && bytes[pos] == prefix {
        match_ident(bytes, pos + 1)
    } else {
        None
    }
}

/// Matches a string literal at `pos`.
pub fn match_string(bytes: &[u8], pos: usize) -> (r: Option<usize>)
    ensures
        end_view(r) == string_end(bytes@, pos as int),
{
    if pos < bytes.len() && bytes[pos] == QUOTE {
        match scan_for(bytes, pos + 1, QUOTE) {
            Some(close) => {
                proof {
                    lemma_find_byte(bytes@, pos + 1, QUOTE);
                }
                Some(close + 1)
            },
            None => None,
        }
    } else {
        None
    }
}

/// Matches a number at `pos`.
pub fn match_number(bytes: &[u8], pos: usize) -> (r: Option<usize>)
    ensures
        end_view(r) == number_end(bytes@, pos as int),
{
    if pos < bytes.len() && ByteClass::Digit.contains(bytes[pos]) {
        Some(scan_run(bytes, pos, ByteClass::Digit))
    } else {
        None
    }
}

/// Matches a percentage at `pos`.
pub fn match_percentage(bytes: &[u8], pos: usize) -> (r: Option<usize>)
    ensures
        end_view(r) == percentage_end(bytes@, pos as int),
{
    match match_number(bytes, pos) {
        Some(digits) => {
            if digits < bytes.len() && bytes[digits] == PERCENT {
                Some(digits + 1)
            } else {
                None
            }
        },
        None => None,
    }
}

/// Matches a dimension at `pos`.
pub fn match_dimension(bytes: &[u8], pos: usize) -> (r: Option<usize>)
    ensures
        end_view(r) == dimension_end(bytes@, pos as int),
{
    match match_number(bytes, pos) {
        Some(digits) => match_ident(bytes, digits),
        None => None,
    }
}

/// Matches the single byte `b` at `pos`.
pub fn match_byte(bytes: &[u8], pos: usize, b: u8) -> (r: Option<usize>)
    ensures
        end_view(r) == byte_end(bytes@, pos as int, b),
{
    if pos < bytes.len() && bytes[pos] == b {
        Some(pos + 1)
    } else {
        None
    }
}

/// Matches a run of whitespace at `pos`.
pub fn match_space(bytes: &[u8], pos: usize) -> (r: Option<usize>)
    ensures
        end_view(r) == space_end(bytes@, pos as int),
{
    if pos < bytes.len() && ByteClass::Space.contains(bytes[pos]) {
        Some(scan_run(bytes, pos, ByteClass::Space))
    } else {
        None
    }
}

/// Matches a block comment at `pos`.
pub fn match_comment(bytes: &[u8], pos: usize) -> (r: Option<usize>)
    ensures
        end_view(r) == comment_end(bytes@, pos as int),
{
    if pos < bytes.len() && bytes.len() - pos >= 2 && bytes[pos] == SLASH && bytes[pos + 1]
        == STAR {
        match scan_for_comment_close(bytes, pos + 2) {
            Some(close) => {
                proof {
                    lemma_find_comment_close(bytes@, pos + 2);
                }
                Some(close + 2)
            },
            None => None,
        }
    } else {
        None
    }
}

/// Matches a token of category `kind` at `pos` and returns where it ends.
pub fn match_at(kind: TokenType, bytes: &[u8], pos: usize) -> (r: Option<usize>)
    ensures
        end_view(r) == match_end(kind, bytes@, pos as int),
{
    match kind {
        TokenType::ClassSelector => match_prefixed_ident(bytes, pos, DOT),
        TokenType::IdSelector => match_prefixed_ident(bytes, pos, HASH),
        TokenType::Ident => match_ident(bytes, pos),
        TokenType::Atkeyword => match_prefixed_ident(bytes, pos, AT),
        TokenType::String => match_string(bytes, pos),
        TokenType::Percentage => match_percentage(bytes, pos),
        TokenType::Dimension => match_dimension(bytes, pos),
        TokenType::Number => match_number(bytes, pos),
        TokenType::Colon => match_byte(bytes, pos, COLON),
        TokenType::Semicolon => match_byte(bytes, pos, SEMICOLON),
        TokenType::CurlyLeft => match_byte(bytes, pos, CURLY_LEFT),
        TokenType::CurlyRight => match_byte(bytes, pos, CURLY_RIGHT),
        TokenType::ParenLeft => match_byte(bytes, pos, PAREN_LEFT),
        TokenType::ParenRight => match_byte(bytes, pos, PAREN_RIGHT),
        TokenType::BracketLeft => match_byte(bytes, pos, BRACKET_LEFT),
        TokenType::BracketRight => match_byte(bytes, pos, BRACKET_RIGHT),
        TokenType::Comma => match_byte(bytes, pos, COMMA),
        TokenType::Greater => match_byte(bytes, pos, GREATER),
        TokenType::Plus => match_byte(bytes, pos, PLUS),
        TokenType::Tilde => match_byte(bytes, pos, TILDE),
        TokenType::S => match_space(bytes, pos),
        TokenType::Comment => match_comment(bytes, pos),
        _ => None,
    }
}

/// Builds the priority table.
pub fn priority_table() -> (table: Vec<TokenType>)
    ensures
        table@ == priority(),
{
    let mut table: Vec<TokenType> = Vec::new();
    table.push(TokenType::ClassSelector);
    table.push(TokenType::IdSelector);
    table.push(TokenType::Ident);
    table.push(TokenType::Atkeyword);
    table.push(TokenType::String);
    table.push(TokenType::Percentage);
    table.push(TokenType::Dimension);
    table.push(TokenType::Number);
    table.push(TokenType::Colon);
    table.push(TokenType::Semicolon);
    table.push(TokenType::CurlyLeft);
    table.push(TokenType::CurlyRight);
    table.push(TokenType::ParenLeft);
    table.push(TokenType::ParenRight);
    table.push(TokenType::BracketLeft);
    table.push(TokenType::BracketRight);
    table.push(TokenType::Comma);
    table.push(TokenType::Greater);
    table.push(TokenType::Plus);
    table.push(TokenType::Tilde);
    table.push(TokenType::S);
    table.push(TokenType::Comment);
    assert(table@ =~= priority());
    table
}

/// Tries the categories of `table` in order at `pos` and returns the first
/// that matches, with the end of its match.
pub fn first_match_in(table: &Vec<TokenType>, bytes: &[u8], pos: usize) -> (r: Option<
    (TokenType, usize),
>)
    ensures
        match_view(r) == first_match_from(table@, bytes@, pos as int, 0),
{
    let mut k: usize = 0;
    while k < table.len()
        invariant
            first_match_from(table@, bytes@, pos as int, 0) == first_match_from(
                table@,
                bytes@,
                pos as int,
                k as int,
            ),
        decreases table.len() - k,
    {
        let kind = table[k];
        match match_at(kind, bytes, pos) {
            Some(end) => {
                return Some((kind, end));
            },
            None => {},
        }
        k += 1;
    }
    None
}

/// Counts the line feeds in `bytes` from `from` up to `to`.
pub fn count_newlines(bytes: &[u8], from: usize, to: usize) -> (count: usize)
    ensures
        count as nat == newlines(bytes@, from as int, to as int),
        count <= to - from || count == 0,
{
    if to > bytes.len() || from >= to {
        return 0;
    }
    let mut count: usize = 0;
    let mut i: usize = from;
    while i < to
        invariant
            from <= i <= to <= bytes@.len(),
            count as nat == newlines(bytes@, from as int, i as int),
            count <= i - from,
        decreases to - i,
    {
        if bytes[i] == LINE_FEED {
            count += 1;
        }
        i += 1;
    }
    count
}

/// Appends to `tokens` the tokens of `source` from byte `start` on, with the
/// line counter at `line`, and to `skipped` a record of every byte that was
/// skipped because no category matched at it. Returns the final value of the
/// line counter.
pub(crate) fn scan_tokens(
    source: &str,
    start: usize,
    line: usize,
    tokens: &mut Vec<Token>,
    skipped: &mut Vec<UnrecognizedCharacter>,
) -> (end_line: usize)
    requires
        source.spec_bytes().len() < usize::MAX,
        line <= start + 1,
    ensures
        token_views(final(tokens)@) == token_views(old(tokens)@) + lex_from(
            source.spec_bytes(),
            start as int,
            line as nat,
        ),
        unrecognized_views(final(skipped)@) == unrecognized_views(old(skipped)@)
            + unrecognized_from(source.spec_bytes(), start as int, line as nat),
        end_line as nat == final_line(source.spec_bytes(), start as int, line as nat),
        end_line <= start + 1 || end_line <= source.spec_bytes().len() + 1,
{
    let bytes = source.as_bytes();
    let table = priority_table();
    let ghost src = source.spec_bytes();
    let ghost before = token_views(old(tokens)@);
    let ghost whole = lex_from(src, start as int, line as nat);
    let ghost skipped_before = unrecognized_views(old(skipped)@);
    let ghost skipped_whole = unrecognized_from(src, start as int, line as nat);
    let mut pos: usize = start;
    let mut line: usize = line;
    proof {
        assert(skipped_before + Seq::<UnrecognizedView>::empty() =~= skipped_before);
    }
    while pos < bytes.len()
        invariant
            bytes@ == src,
            src == source.spec_bytes(),
            src.len() < usize::MAX,
            table@ == priority(),
            line <= pos + 1,
            start <= pos,
            pos == start || pos <= src.len(),
            before + whole == token_views(tokens@) + lex_from(src, pos as int, line as nat),
            whole.last() == lex_from(src, pos as int, line as nat).last(),
            skipped_before + skipped_whole == unrecognized_views(skipped@) + unrecognized_from(
                src,
                pos as int,
                line as nat,
            ),
        decreases bytes.len() - pos,
    {
        proof {
            lemma_first_match_bounds(src, pos as int);
            match first_match_from(priority(), src, pos as int, 0) {
                Some((kind, end)) => {
                    lemma_lex_from_shape(src, end, line as nat);
                },
                None => {},
            }
        }
        match first_match_in(&table, bytes, pos) {
            None => {
                let record = UnrecognizedCharacter { line, offset: pos };
                proof {
                    let ghost rest = unrecognized_from(src, pos + 1, line as nat);
                    assert(unrecognized_views(skipped@.push(record)) =~= unrecognized_views(
                        skipped@,
                    ).push(record@));
                    assert(unrecognized_views(skipped@) + (seq![record@] + rest)
                        =~= unrecognized_views(skipped@).push(record@) + rest);
                }
                skipped.push(record);
                pos += 1;
            },
            Some((kind, end)) => {
                if kind == TokenType::S || kind == TokenType::Comment {
                    let n = count_newlines(bytes, pos, end);
                    line += n;
                } else {
                    let lexeme = substring(source, pos, end);
                    let token = Token::new(kind, lexeme, line);
                    proof {
                        let ghost rest = lex_from(src, end as int, line as nat);
                        assert(token_views(tokens@.push(token)) =~= token_views(tokens@).push(
                            token@,
                        ));
                        assert(token_views(tokens@) + (seq![token@] + rest) =~= token_views(
                            tokens@,
                        ).push(token@) + rest);
                    }
                    tokens.push(token);
                }
                pos = end;
            },
        }
    }
    let token = Token::new(TokenType::Eof, String::new(), line);
    proof {
        assert(token@ == eof_token(line as nat));
        assert(token_views(tokens@.push(token)) =~= token_views(tokens@).push(token@));
        assert(token_views(tokens@) + seq![token@] =~= token_views(tokens@).push(token@));
        assert((before + whole).last() == token@);
        assert(unrecognized_views(skipped@) + Seq::<UnrecognizedView>::empty()
            =~= unrecognized_views(skipped@));
    }
    tokens.push(token);
    line
}

} // verus!
