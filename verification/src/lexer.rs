//! The lexer: a source text, a cursor into it, a line counter and the tokens
//! read so far.

use crate::error::{unrecognized_views, UnrecognizedCharacter, UnrecognizedView};
use crate::lexical::{final_line, lex_from, unrecognized_from};
use crate::scanner::scan_tokens;
use crate::token::{token_views, Token, TokenView};
use vstd::prelude::*;
use vstd::string::*;
use vstd::utf8::encode_utf8;

verus! {

/// Turns a source text into tokens.
pub struct Lexer {
    source: String,
    tokens: Vec<Token>,
    unrecognized: Vec<UnrecognizedCharacter>,
    current: usize,
    line: usize,
}

impl Lexer {
    /// The source text.
    pub closed spec fn source(&self) -> Seq<char> {
        self.source@
    }

    /// The UTF-8 bytes of the source text, which the lexical grammar reads.
    pub open spec fn source_bytes(&self) -> Seq<u8> {
        encode_utf8(self.source())
    }

    /// The tokens produced so far.
    pub closed spec fn emitted(&self) -> Seq<TokenView> {
        token_views(self.tokens@)
    }

    /// The skipped bytes recorded so far.
    pub closed spec fn skipped(&self) -> Seq<UnrecognizedView> {
        unrecognized_views(self.unrecognized@)
    }

    /// The byte offset at which reading goes on.
    pub closed spec fn position(&self) -> int {
        self.current as int
    }

    /// The line on which the cursor stands.
    pub closed spec fn line(&self) -> nat {
        self.line as nat
    }

    #[verifier::type_invariant]
    spec fn well_formed(&self) -> bool {
        &&& encode_utf8(self.source@).len() < usize::MAX
        &&& self.line <= self.current + 1
    }

    /// A lexer at the start of `source`, on line 1, with no token read.
    pub fn new(source: String) -> (lexer: Lexer)
        requires
            encode_utf8(source@).len() < usize::MAX,
        ensures
            lexer.source() == source@,
            lexer.emitted() == Seq::<TokenView>::empty(),
            lexer.skipped() == Seq::<UnrecognizedView>::empty(),
            lexer.position() == 0,
            lexer.line() == 1,
    {
        let lexer = Lexer {
            source,
            tokens: Vec::new(),
            unrecognized: Vec::new(),
            current: 0,
            line: 1,
        };
        assert(token_views(lexer.tokens@) =~= Seq::<TokenView>::empty());
        assert(unrecognized_views(lexer.unrecognized@) =~= Seq::<UnrecognizedView>::empty());
        lexer
    }

    /// Reads the rest of the source and appends its tokens, the last of which
    /// is the end-of-input token. A byte at which no category matches is
    /// skipped and recorded. On a fresh lexer the tokens are then
    /// `lex(self.source_bytes())` and the records
    /// `unrecognized(self.source_bytes())`.
    pub fn build(&mut self)
        ensures
            final(self).source() == old(self).source(),
            final(self).skipped() == old(self).skipped() + unrecognized_from(
                old(self).source_bytes(),
                old(self).position(),
                old(self).line(),
            ),
            final(self).emitted() == old(self).emitted() + lex_from(
                old(self).source_bytes(),
                old(self).position(),
                old(self).line(),
            ),
            final(self).line() == final_line(
                old(self).source_bytes(),
                old(self).position(),
                old(self).line(),
            ),
            final(self).position() == if old(self).position() <= old(self).source_bytes().len() {
                old(self).source_bytes().len() as int
            } else {
                old(self).position()
            },
    {
        proof {
            use_type_invariant(&*self);
        }
        let mut tokens = self.tokens();
        let mut skipped = self.unrecognized();
        let end_line = scan_tokens(
            self.source.as_str(),
            self.current,
            self.line,
            &mut tokens,
            &mut skipped,
        );
        self.tokens = tokens;
        self.unrecognized = skipped;
        let len = self.source.as_str().len();
        if self.current < len {
            self.current = len;
        }
        self.line = end_line;
    }

    /// A copy of the tokens produced so far.
    pub fn tokens(&self) -> (tokens: Vec<Token>)
        ensures
            token_views(tokens@) == self.emitted(),
    {
        let mut copy: Vec<Token> = Vec::new();
        let mut i: usize = 0;
        while i < self.tokens.len()
            invariant
                i <= self.tokens@.len(),
                copy@ == self.tokens@.subrange(0, i as int),
            decreases self.tokens@.len() - i,
        {
            copy.push(self.tokens[i].clone());
            assert(copy@ =~= self.tokens@.subrange(0, i + 1));
            i += 1;
        }
        assert(copy@ =~= self.tokens@);
        copy
    }

    /// A copy of the records of the bytes skipped so far, in source order.
    pub fn unrecognized(&self) -> (records: Vec<UnrecognizedCharacter>)
        ensures
            unrecognized_views(records@) == self.skipped(),
    {
        let mut copy: Vec<UnrecognizedCharacter> = Vec::new();
        let mut i: usize = 0;
        while i < self.unrecognized.len()
            invariant
                i <= self.unrecognized@.len(),
                copy@ == self.unrecognized@.subrange(0, i as int),
            decreases self.unrecognized@.len() - i,
        {
            copy.push(self.unrecognized[i]);
            assert(copy@ =~= self.unrecognized@.subrange(0, i + 1));
            i += 1;
        }
        assert(copy@ =~= self.unrecognized@);
        copy
    }
}

} // verus!
