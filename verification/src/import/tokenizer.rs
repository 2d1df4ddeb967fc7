//! The tokenizer for import statements.
//!
//! It reads ASCII text that is made of blanks, the punctuation `, ; { }`,
//! quoted literals and words. Nothing else is provided for: a text that
//! holds another character outside a literal cannot be walked.

use vstd::prelude::*;
use vstd::string::*;
use vstd::utf8::{is_ascii_chars, is_ascii_chars_encode_utf8};

verus! {

/// The category of a token.
#[derive(Debug, Clone, Copy, PartialEq, Eq, Structural)]
pub enum TokenType {
    Import,
    Ident,
    StringLiteral,
    Comma,
    From,
    SemiColon,
    Whitespace,
    LeftCurly,
    RightCurly,
    Eof,
}

/// The mathematical content of a token.
pub struct TokenView {
    pub kind: TokenType,
    pub text: Seq<char>,
}

/// A token: its category and its text.
#[derive(Debug)]
pub struct Token {
    pub token_type: TokenType,
    pub lexeme: String,
}

impl View for Token {
    type V = TokenView;

    open spec fn view(&self) -> TokenView {
        TokenView { kind: self.token_type, text: self.lexeme@ }
    }
}

/// The views of a sequence of tokens, in order.
pub open spec fn token_views(tokens: Seq<Token>) -> Seq<TokenView> {
    tokens.map_values(|t: Token| t@)
}

/// Space, tab, carriage return or line feed.
pub open spec fn is_blank(c: char) -> bool {
    c == ' ' || c == '\t' || c == '\r' || c == '\n'
}

/// The category of a punctuation character.
pub open spec fn punctuation(c: char) -> Option<TokenType> {
    if c == ',' {
        Some(TokenType::Comma)
    } else if c == ';' {
        Some(TokenType::SemiColon)
    } else if c == '{' {
        Some(TokenType::LeftCurly)
    } else if c == '}' {
        Some(TokenType::RightCurly)
    } else {
        None
    }
}

/// A double or a single quote.
pub open spec fn is_quote(c: char) -> bool {
    c == '"' || c == '\''
}

/// An ASCII letter.
pub open spec fn is_letter(c: char) -> bool {
    ('a' <= c <= 'z') || ('A' <= c <= 'Z')
}

/// An ASCII letter or digit, or an underscore.
pub open spec fn is_word_part(c: char) -> bool {
    is_letter(c) || ('0' <= c <= '9') || c == '_'
}

/// The position of the first `quote` at or after `pos`, or the end of the
/// text where there is none.
pub open spec fn literal_close(src: Seq<char>, pos: int, quote: char) -> int
    decreases src.len() - pos,
{
    if 0 <= pos < src.len() && src[pos] != quote {
        literal_close(src, pos + 1, quote)
    } else {
        pos
    }
}

/// The end of the longest run of word characters that starts at `pos`.
pub open spec fn word_end(src: Seq<char>, pos: int) -> int
    decreases src.len() - pos,
{
    if 0 <= pos < src.len() && is_word_part(src[pos]) {
        word_end(src, pos + 1)
    } else {
        pos
    }
}

/// The category of a word: the keywords `import` and `from` have their
/// own.
pub open spec fn word_kind(text: Seq<char>) -> TokenType {
    if text == "import"@ {
        TokenType::Import
    } else if text == "from"@ {
        TokenType::From
    } else {
        TokenType::Ident
    }
}

/// The token that begins at `pos` and the position after it, or nothing
/// where the character at `pos` begins no token.
///
/// A blank or a punctuation character is a token of its own. A quote begins
/// a literal, which runs to the next quote of the same kind or, without
/// one, to the end of the text; its text is what stands between the quotes.
/// A letter begins a word.
pub open spec fn token_at(src: Seq<char>, pos: int) -> Option<(TokenView, int)> {
    let c = src[pos];
    if is_blank(c) {
        Some((TokenView { kind: TokenType::Whitespace, text: seq![c] }, pos + 1))
    } else if punctuation(c) is Some {
        Some((TokenView { kind: punctuation(c)->0, text: seq![c] }, pos + 1))
    } else if is_quote(c) {
        let close = literal_close(src, pos + 1, c);
        Some(
            (
                TokenView { kind: TokenType::StringLiteral, text: src.subrange(pos + 1, close) },
                if close < src.len() {
                    close + 1
                } else {
                    close
                },
            ),
        )
    } else if is_letter(c) {
        let end = word_end(src, pos + 1);
        let text = src.subrange(pos, end);
        Some((TokenView { kind: word_kind(text), text }, end))
    } else {
        None
    }
}

/// True when every character from `pos` on that is met outside a literal
/// begins a token.
pub open spec fn walkable_from(src: Seq<char>, pos: int) -> bool
    decreases src.len() - pos,
{
    if pos < 0 || pos >= src.len() {
        true
    } else {
        match token_at(src, pos) {
            Some((_, next)) => {
                proof {
                    lemma_token_at_bounds(src, pos);
                }
                walkable_from(src, next)
            },
            None => false,
        }
    }
}

/// The end-of-input token.
pub open spec fn eof_token() -> TokenView {
    TokenView { kind: TokenType::Eof, text: Seq::empty() }
}

/// The tokens from `pos` on, up to the first character that begins no
/// token, and the end-of-input token after them.
pub open spec fn tokens_from(src: Seq<char>, pos: int) -> Seq<TokenView>
    decreases src.len() - pos,
{
    if pos < 0 || pos >= src.len() {
        seq![eof_token()]
    } else {
        match token_at(src, pos) {
            Some((token, next)) => {
                proof {
                    lemma_token_at_bounds(src, pos);
                }
                seq![token] + tokens_from(src, next)
            },
            None => seq![eof_token()],
        }
    }
}

/// A literal closes inside the text or at its end, and holds no quote of
/// its kind.
pub proof fn lemma_literal_close(src: Seq<char>, pos: int, quote: char)
    requires
        0 <= pos <= src.len(),
    ensures
        pos <= literal_close(src, pos, quote) <= src.len(),
        literal_close(src, pos, quote) < src.len() ==> src[literal_close(src, pos, quote)]
            == quote,
        forall|i: int| pos <= i < literal_close(src, pos, quote) ==> #[trigger] src[i] != quote,
    decreases src.len() - pos,
{
    if pos < src.len() && src[pos] != quote {
        lemma_literal_close(src, pos + 1, quote);
    }
}

/// A word ends inside the text or at its end, and cannot be extended.
pub proof fn lemma_word_end(src: Seq<char>, pos: int)
    requires
        0 <= pos <= src.len(),
    ensures
        pos <= word_end(src, pos) <= src.len(),
        word_end(src, pos) < src.len() ==> !is_word_part(src[word_end(src, pos)]),
        forall|i: int| pos <= i < word_end(src, pos) ==> is_word_part(#[trigger] src[i]),
    decreases src.len() - pos,
{
    if pos < src.len() && is_word_part(src[pos]) {
        lemma_word_end(src, pos + 1);
    }
}

/// A token takes at least one character and ends inside the text.
pub proof fn lemma_token_at_bounds(src: Seq<char>, pos: int)
    requires
        0 <= pos < src.len(),
    ensures
        token_at(src, pos) matches Some((_, next)) ==> pos < next <= src.len(),
{
    let c = src[pos];
    if is_quote(c) {
        lemma_literal_close(src, pos + 1, c);
    } else if is_letter(c) {
        lemma_word_end(src, pos + 1);
    }
}

/// Reads import statements into tokens.
pub struct Lexer {
    source: String,
    tokens: Vec<Token>,
    current: usize,
}

impl Lexer {
    /// The source text.
    pub closed spec fn source(&self) -> Seq<char> {
        self.source@
    }

    /// The tokens read so far.
    pub closed spec fn emitted(&self) -> Seq<TokenView> {
        token_views(self.tokens@)
    }

    /// The position of the character that is read next.
    pub closed spec fn position(&self) -> int {
        self.current as int
    }

    /// True when the rest of the source can be walked: it is ASCII, and
    /// every character that is met outside a literal begins a token.
    pub open spec fn walkable(&self) -> bool {
        &&& is_ascii_chars(self.source())
        &&& 0 <= self.position() <= self.source().len()
        &&& walkable_from(self.source(), self.position())
    }

    /// A lexer at the start of `source`, with no token read.
    pub fn new(source: String) -> (lexer: Self)
        ensures
            lexer.source() == source@,
            lexer.emitted() == Seq::<TokenView>::empty(),
            lexer.position() == 0,
    {
        let lexer = Self { source, tokens: Vec::new(), current: 0 };
        assert(token_views(lexer.tokens@) =~= Seq::<TokenView>::empty());
        lexer
    }

    /// Reads the rest of the source into tokens and adds the end-of-input
    /// token.
    pub fn walk(&mut self)
        requires
            old(self).walkable(),
        ensures
            final(self).source() == old(self).source(),
            final(self).emitted() == old(self).emitted() + tokens_from(
                old(self).source(),
                old(self).position(),
            ),
            final(self).position() == old(self).source().len(),
            final(self).walkable(),
    {
        let ghost src = self.source();
        let ghost before = self.emitted();
        let ghost whole = tokens_from(src, self.position());
        while !self.is_at_end()
            invariant
                self.source() == src,
                src == old(self).source(),
                is_ascii_chars(src),
                0 <= self.position() <= src.len(),
                walkable_from(src, self.position()),
                before == old(self).emitted(),
                whole == tokens_from(old(self).source(), old(self).position()),
                before + whole == self.emitted() + tokens_from(src, self.position()),
            decreases src.len() - self.position(),
        {
            let ghost pos = self.position();
            let ghost sofar = self.emitted();
            proof {
                lemma_token_at_bounds(src, pos);
            }
            let c = self.source.as_str().get_ascii(self.current);
            if c == 0x20 || c == 0x09 || c == 0x0d || c == 0x0a {
                self.add_single(TokenType::Whitespace);
            } else if c == 0x2c {
                self.add_single(TokenType::Comma);
            } else if c == 0x3b {
                self.add_single(TokenType::SemiColon);
            } else if c == 0x7b {
                self.add_single(TokenType::LeftCurly);
            } else if c == 0x7d {
                self.add_single(TokenType::RightCurly);
            } else if c == 0x22 || c == 0x27 {
                self.string_literal(c as char);
            } else {
                self.identifier(c as char);
            }
            proof {
                let (token, next) = token_at(src, pos)->0;
                assert(self.emitted() == sofar.push(token));
                assert(sofar + (seq![token] + tokens_from(src, next)) =~= sofar.push(token)
                    + tokens_from(src, next));
            }
        }
        proof {
            assert(self.emitted() + seq![eof_token()] =~= self.emitted().push(eof_token()));
        }
        self.add_token(TokenType::Eof, String::new());
    }

    /// Tests whether the rest of the source can be walked.
    pub fn can_walk(&self) -> (r: bool)
        ensures
            r == self.walkable(),
    {
        let text = self.source.as_str();
        if !text.is_ascii() {
            return false;
        }
        let len = self.length();
        if self.current > len {
            return false;
        }
        let ghost src = self.source();
        let mut pos: usize = self.current;
        while pos < len
            invariant
                text@ == src,
                src == self.source(),
                is_ascii_chars(src),
                len == src.len(),
                self.current <= pos <= len,
                walkable_from(src, self.position()) == walkable_from(src, pos as int),
            decreases len - pos,
        {
            proof {
                lemma_token_at_bounds(src, pos as int);
            }
            let c = text.get_ascii(pos);
            if c == 0x20 || c == 0x09 || c == 0x0d || c == 0x0a || c == 0x2c || c == 0x3b || c
                == 0x7b || c == 0x7d {
                pos += 1;
            } else if c == 0x22 || c == 0x27 {
                assert(c as char == src[pos as int]);
                let close = find_literal_close(text, pos + 1, c);
                proof {
                    lemma_literal_close(src, pos + 1, src[pos as int]);
                }
                pos = if close < len {
                    close + 1
                } else {
                    close
                };
            } else if (0x61 <= c && c <= 0x7a) || (0x41 <= c && c <= 0x5a) {
                pos = find_word_end(text, pos + 1);
                proof {
                    lemma_word_end(src, pos as int);
                }
            } else {
                return false;
            }
        }
        true
    }

    /// Adds the character at the cursor as a token of category
    /// `token_type` and moves past it.
    fn add_single(&mut self, token_type: TokenType)
        requires
            is_ascii_chars(old(self).source()),
            0 <= old(self).position() < old(self).source().len(),
        ensures
            final(self).source() == old(self).source(),
            final(self).position() == old(self).position() + 1,
            final(self).emitted() == old(self).emitted().push(
                TokenView {
                    kind: token_type,
                    text: seq![old(self).source()[old(self).position()]],
                },
            ),
    {
        let len = self.length();
        let text = self.source.as_str();
        let lexeme = text.substring_ascii(self.current, self.current + 1).to_owned();
        assert(lexeme@ =~= seq![self.source@[self.current as int]]);
        self.add_token(token_type, lexeme);
        self.current += 1;
    }

    /// Adds a token.
    fn add_token(&mut self, token_type: TokenType, lexeme: String)
        ensures
            final(self).source() == old(self).source(),
            final(self).position() == old(self).position(),
            final(self).emitted() == old(self).emitted().push(
                TokenView { kind: token_type, text: lexeme@ },
            ),
    {
        let token = Token { token_type, lexeme };
        assert(token_views(self.tokens@.push(token)) =~= token_views(self.tokens@).push(token@));
        self.tokens.push(token);
    }

    /// Reads a literal that the quote at the cursor opens.
    fn string_literal(&mut self, quote: char)
        requires
            is_ascii_chars(old(self).source()),
            0 <= old(self).position() < old(self).source().len(),
            is_quote(old(self).source()[old(self).position()]),
            quote == old(self).source()[old(self).position()],
        ensures
            final(self).source() == old(self).source(),
            token_at(old(self).source(), old(self).position()) == Some(
                (final(self).emitted().last(), final(self).position()),
            ),
            final(self).emitted() == old(self).emitted().push(final(self).emitted().last()),
    {
        let ghost src = self.source();
        let len = self.length();
        let text = self.source.as_str();
        let start = self.current + 1;
        let mark = quote as u8;
        assert(mark as char == quote);
        let end = find_literal_close(text, start, mark);
        proof {
            lemma_literal_close(src, start as int, quote);
        }
        let value = text.substring_ascii(start, end).to_owned();
        self.current = if end < len {
            end + 1
        } else {
            end
        };
        self.add_token(TokenType::StringLiteral, value);
    }

    /// Reads a word that the letter at the cursor begins.
    fn identifier(&mut self, first: char)
        requires
            is_ascii_chars(old(self).source()),
            0 <= old(self).position() < old(self).source().len(),
            is_letter(first),
            first == old(self).source()[old(self).position()],
        ensures
            final(self).source() == old(self).source(),
            token_at(old(self).source(), old(self).position()) == Some(
                (final(self).emitted().last(), final(self).position()),
            ),
            final(self).emitted() == old(self).emitted().push(final(self).emitted().last()),
    {
        let ghost src = self.source();
        let len = self.length();
        let text = self.source.as_str();
        let start = self.current;
        let end = find_word_end(text, start + 1);
        proof {
            lemma_word_end(src, start + 1);
        }
        let value = text.substring_ascii(start, end).to_owned();
        let token_type = if value == "import".to_owned() {
            TokenType::Import
        } else if value == "from".to_owned() {
            TokenType::From
        } else {
            TokenType::Ident
        };
        self.current = end;
        self.add_token(token_type, value);
    }

    /// Tests whether the whole source has been read.
    fn is_at_end(&self) -> (r: bool)
        requires
            is_ascii_chars(self.source()),
        ensures
            r == (self.position() >= self.source().len()),
    {
        self.current >= self.length()
    }

    /// The number of characters of the source.
    fn length(&self) -> (n: usize)
        requires
            is_ascii_chars(self.source()),
        ensures
            n == self.source().len(),
    {
        proof {
            is_ascii_chars_encode_utf8(self.source@);
        }
        self.source.as_str().as_bytes().len()
    }

    /// A copy of the tokens read so far.
    pub fn tokens(&self) -> (tokens: Vec<Token>)
        ensures
            token_views(tokens@) == self.emitted(),
    {
        let mut copy: Vec<Token> = Vec::new();
        let mut i: usize = 0;
        while i < self.tokens.len()
            invariant
                i <= self.tokens@.len(),
                copy@.len() == i,
                forall|j: int| 0 <= j < i ==> (#[trigger] copy@[j])@ == self.tokens@[j]@,
            decreases self.tokens@.len() - i,
        {
            let token = &self.tokens[i];
            copy.push(Token { token_type: token.token_type, lexeme: token.lexeme.clone() });
            i += 1;
        }
        assert(token_views(copy@) =~= token_views(self.tokens@));
        copy
    }
}

/// Finds the first `quote` at or after `start`, or the end of the text.
fn find_literal_close(text: &str, start: usize, quote: u8) -> (end: usize)
    requires
        is_ascii_chars(text@),
        start <= text@.len(),
        quote < 0x80,
    ensures
        end == literal_close(text@, start as int, quote as char),
{
    proof {
        is_ascii_chars_encode_utf8(text@);
    }
    let len = text.as_bytes().len();
    let mut end = start;
    while end < len && text.get_ascii(end) != quote
        invariant
            is_ascii_chars(text@),
            len == text@.len(),
            start <= end <= len,
            quote < 0x80,
            literal_close(text@, start as int, quote as char) == literal_close(
                text@,
                end as int,
                quote as char,
            ),
        decreases len - end,
    {
        end += 1;
    }
    end
}

/// Finds the end of the run of word characters that starts at `start`.
fn find_word_end(text: &str, start: usize) -> (end: usize)
    requires
        is_ascii_chars(text@),
        start <= text@.len(),
    ensures
        end == word_end(text@, start as int),
{
    proof {
        is_ascii_chars_encode_utf8(text@);
    }
    let len = text.as_bytes().len();
    let mut end = start;
    while end < len && word_part(text.get_ascii(end))
        invariant
            is_ascii_chars(text@),
            len == text@.len(),
            start <= end <= len,
            word_end(text@, start as int) == word_end(text@, end as int),
        decreases len - end,
    {
        end += 1;
    }
    end
}

/// Tests whether the ASCII character `b` is a letter, a digit or an
/// underscore.
fn word_part(b: u8) -> (r: bool)
    ensures
        b < 0x80 ==> r == is_word_part(b as char),
{
    (0x61 <= b && b <= 0x7a) || (0x41 <= b && b <= 0x5a) || (0x30 <= b && b <= 0x39) || b == 0x5f
}

} // verus!
