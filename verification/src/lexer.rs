//! The lexer: from source text to tokens.

use crate::lexing::{
    byte_offset, clamp, column_of, find_char, index_at, is_boundary, is_digit, is_word_start,
    lemma_byte_offset_monotonic, lemma_byte_offset_step, lemma_column_bound, lemma_find_char_bounds,
    lemma_scan_bounds, lex_from, lexeme_token, lexeme_tokens, line_end, line_of, location_at,
    number_end, scan, single_char_kind, utf8_width, word_end, word_kind, Lexeme, LexOutcome, Scan,
};
use crate::text::{collect_chars, push_decimal, string_of_range, text_fits};
use crate::tokens::{token_view, tokens_view, Token, TokenData, TokenDataView, TokenVariant};
use vstd::prelude::*;
use vstd::string::*;

verus! {

/// Why a text cannot be lexed.
#[derive(Debug, Clone, Copy, PartialEq, Eq, Hash, Structural)]
pub enum LexError {
    /// A character that starts no token.
    TokenNotRecognized,
    /// A regex literal without its closing slash.
    MalformedRegex,
    /// A string literal without its closing quote.
    StringNotTerminated,
}

/// A place in the source: the offset in bytes of its character in the UTF-8
/// text, and its 1-based line and column, both counted in characters.
#[derive(Debug, Clone, Copy, PartialEq, Eq, Hash, Structural)]
pub struct LexerLocation {
    pub src_index: usize,
    pub line: usize,
    pub column: usize,
}

/// A lexer error: what went wrong, and where.
pub type LexerError = (LexError, LexerLocation);

/// The message of a lexer error.
pub open spec fn lex_error_message(kind: LexError) -> Seq<char> {
    match kind {
        LexError::TokenNotRecognized => "Token not recognized"@,
        LexError::MalformedRegex => "Malformed regex"@,
        LexError::StringNotTerminated => "String not terminated"@,
    }
}

/// How a location reads in a message.
pub open spec fn describe_location(loc: LexerLocation) -> Seq<char> {
    "index: "@ + crate::text::decimal(loc.src_index as nat) + ", line: "@ + crate::text::decimal(
        loc.line as nat,
    ) + ", column: "@ + crate::text::decimal(loc.column as nat)
}

impl LexError {
    /// The message of this error.
    pub fn message(&self) -> (r: &'static str)
        ensures
            r@ == lex_error_message(*self),
    {
        match self {
            LexError::TokenNotRecognized => "Token not recognized",
            LexError::MalformedRegex => "Malformed regex",
            LexError::StringNotTerminated => "String not terminated",
        }
    }
}

impl LexerLocation {
    /// This location as it reads in a message.
    pub fn describe(&self) -> (r: String)
        ensures
            r@ == describe_location(*self),
    {
        let mut out = String::from_str("index: ");
        push_decimal(&mut out, self.src_index as u64);
        out.append(", line: ");
        push_decimal(&mut out, self.line as u64);
        out.append(", column: ");
        push_decimal(&mut out, self.column as u64);
        assert(out@ =~= describe_location(*self));
        out
    }
}

/// A lexer over one source text.
pub struct Lexer<'src> {
    src: &'src str,
    chars: Vec<char>,
    cursor: usize,
    location: LexerLocation,
}

impl TokenData {
    /// The character under the lexer's cursor, as token data at the cursor.
    pub fn one_at_lexer(lexer: &Lexer) -> (data: Self)
        requires
            lexer.wf(),
            lexer.cursor() < lexer.source().len(),
        ensures
            data@ == (TokenDataView {
                v: lexer.source().subrange(lexer.cursor(), lexer.cursor() + 1),
                l: line_of(lexer.source(), lexer.cursor()),
                c: column_of(lexer.source(), lexer.cursor()),
            }),
    {
        let start = lexer.location;
        proof {
            lemma_column_bound(lexer.chars@, lexer.cursor as int);
        }
        TokenData {
            v: string_of_range(&lexer.chars, lexer.cursor, lexer.cursor + 1),
            l: start.line,
            c: start.column,
        }
    }

    /// The character at `start`, as token data at `start`.
    pub fn at_loc_in_lexer(start: &LexerLocation, lexer: &Lexer) -> (data: Self)
        requires
            lexer.wf(),
            is_boundary(lexer.source(), start.src_index as nat),
            index_at(lexer.source(), start.src_index as nat) < lexer.source().len(),
        ensures
            data@ == (TokenDataView {
                v: lexer.source().subrange(
                    index_at(lexer.source(), start.src_index as nat),
                    index_at(lexer.source(), start.src_index as nat) + 1,
                ),
                l: start.line as nat,
                c: start.column as nat,
            }),
    {
        let index = lexer.index_of_offset(start.src_index);
        TokenData {
            v: string_of_range(&lexer.chars, index, index + 1),
            l: start.line,
            c: start.column,
        }
    }

    /// The characters from `start` up to the lexer's cursor, the cursor's own
    /// character left out, as token data at `start`.
    pub fn from_loc_to_but_not_including_lexer(start: &LexerLocation, lexer: &Lexer) -> (data:
        Self)
        requires
            lexer.wf(),
            is_boundary(lexer.source(), start.src_index as nat),
            index_at(lexer.source(), start.src_index as nat) <= lexer.cursor(),
        ensures
            data@ == (TokenDataView {
                v: lexer.source().subrange(
                    index_at(lexer.source(), start.src_index as nat),
                    lexer.cursor(),
                ),
                l: start.line as nat,
                c: start.column as nat,
            }),
    {
        let index = lexer.index_of_offset(start.src_index);
        TokenData {
            v: string_of_range(&lexer.chars, index, lexer.cursor),
            l: start.line,
            c: start.column,
        }
    }
}

/// One more than `n`, or `n` if there is no larger machine integer.
fn next_count(n: usize) -> (r: usize)
    ensures
        r == clamp((n + 1) as nat),
{
    if n < usize::MAX {
        n + 1
    } else {
        n
    }
}

/// The number of bytes that `c` takes in UTF-8.
fn utf8_width_of(c: char) -> (width: usize)
    ensures
        width == utf8_width(c),
        1 <= width <= 4,
{
    proof {
        vstd::utf8::char_is_scalar(c);
    }
    let u: u32 = c as u32;
    if u <= 0x7F {
        1
    } else if u <= 0x7FF {
        2
    } else if u <= 0xFFFF {
        3
    } else {
        4
    }
}

impl<'src> Lexer<'src> {
    /// The lexer's invariant: it holds the characters of its source, and its
    /// location is the place of its cursor in them.
    pub closed spec fn wf(&self) -> bool {
        &&& self.chars@ == self.src@
        &&& self.chars@.len() <= usize::MAX
        &&& byte_offset(self.chars@, self.chars@.len() as int) <= usize::MAX
        &&& self.cursor <= self.chars@.len()
        &&& self.location == location_at(self.chars@, self.cursor as int)
    }

    /// The characters of the source.
    pub closed spec fn source(&self) -> Seq<char> {
        self.chars@
    }

    /// The index of the next character to read.
    pub closed spec fn cursor(&self) -> int {
        self.cursor as int
    }

    /// A lexer at the start of `src`.
    pub fn new(src: &'src str) -> (lexer: Self)
        ensures
            lexer.wf(),
            lexer.source() == src@,
            lexer.cursor() == 0,
            src@.len() <= usize::MAX,
    {
        let chars = collect_chars(src);
        text_fits(src);
        proof {
            assert(chars@.subrange(0, chars@.len() as int) =~= src@);
            assert(chars@.subrange(0, 0) =~= Seq::<char>::empty());
        }
        Lexer { src, chars, cursor: 0, location: LexerLocation { src_index: 0, line: 1, column: 1 } }
    }

    /// The source text.
    pub fn src(&self) -> (r: &'src str)
        requires
            self.wf(),
        ensures
            r@ == self.source(),
    {
        self.src
    }

    /// The place of the cursor.
    pub fn location(&self) -> (loc: LexerLocation)
        requires
            self.wf(),
        ensures
            loc == location_at(self.source(), self.cursor()),
    {
        self.location
    }

    fn next(&mut self) -> (c: Option<char>)
        requires
            old(self).wf(),
        ensures
            final(self).wf(),
            final(self).source() == old(self).source(),
            old(self).cursor() < old(self).source().len() ==> c == Some(
                old(self).source()[old(self).cursor()],
            ) && final(self).cursor() == old(self).cursor() + 1,
            old(self).cursor() >= old(self).source().len() ==> c is None && final(self).cursor()
                == old(self).cursor(),
    {
        if self.cursor < self.chars.len() {
            let c = self.chars[self.cursor];
            proof {
                lemma_column_bound(self.chars@, self.cursor as int);
                lemma_column_bound(self.chars@, self.cursor + 1);
                lemma_byte_offset_step(self.chars@, self.cursor as int);
                lemma_byte_offset_monotonic(
                    self.chars@,
                    self.cursor + 1,
                    self.chars@.len() as int,
                );
            }
            let src_index = self.location.src_index + utf8_width_of(c);
            if c == '\n' {
                self.location = LexerLocation {
                    src_index,
                    line: next_count(self.location.line),
                    column: 1,
                };
            } else {
                self.location = LexerLocation {
                    src_index,
                    line: self.location.line,
                    column: next_count(self.location.column),
                };
            }
            self.cursor = self.cursor + 1;
            Some(c)
        } else {
            None
        }
    }

    fn peek(&self) -> (c: Option<char>)
        requires
            self.wf(),
        ensures
            self.cursor() < self.source().len() ==> c == Some(self.source()[self.cursor()]),
            self.cursor() >= self.source().len() ==> c is None,
    {
        if self.cursor < self.chars.len() {
            Some(self.chars[self.cursor])
        } else {
            None
        }
    }

    /// The character behind the one under the cursor.
    fn peek_second(&self) -> (c: Option<char>)
        requires
            self.wf(),
        ensures
            self.cursor() + 1 < self.source().len() ==> c == Some(
                self.source()[self.cursor() + 1],
            ),
            self.cursor() + 1 >= self.source().len() ==> c is None,
    {
        if self.cursor < self.chars.len() && self.cursor + 1 < self.chars.len() {
            Some(self.chars[self.cursor + 1])
        } else {
            None
        }
    }

    fn location_snapshot(&self) -> (loc: LexerLocation)
        requires
            self.wf(),
        ensures
            loc == location_at(self.source(), self.cursor()),
    {
        self.location
    }

    fn slice_from(&self, start: usize) -> (text: String)
        requires
            self.wf(),
            start <= self.cursor(),
        ensures
            text@ == self.source().subrange(start as int, self.cursor()),
    {
        string_of_range(&self.chars, start, self.cursor)
    }

    fn single_char_token_next(&mut self) -> (data: TokenData)
        requires
            old(self).wf(),
            old(self).cursor() < old(self).source().len(),
        ensures
            final(self).wf(),
            final(self).source() == old(self).source(),
            final(self).cursor() == old(self).cursor() + 1,
            data@ == (TokenDataView {
                v: old(self).source().subrange(old(self).cursor(), old(self).cursor() + 1),
                l: line_of(old(self).source(), old(self).cursor()),
                c: column_of(old(self).source(), old(self).cursor()),
            }),
    {
        let td = TokenData::one_at_lexer(self);
        self.next();
        td
    }

    /// Token data for the characters from `start` up to the cursor, without
    /// the first and the last of them: the text between two delimiters.
    fn delimited_from(&self, start: usize, at: &LexerLocation) -> (data: TokenData)
        requires
            self.wf(),
            start + 2 <= self.cursor(),
        ensures
            data@ == (TokenDataView {
                v: self.source().subrange(start + 1, self.cursor() - 1),
                l: at.line as nat,
                c: at.column as nat,
            }),
    {
        TokenData {
            v: string_of_range(&self.chars, start + 1, self.cursor - 1),
            l: at.line,
            c: at.column,
        }
    }

    /// Token data for the characters from `start` up to the cursor, placed
    /// at `at`.
    fn data_from(&self, start: usize, at: &LexerLocation) -> (data: TokenData)
        requires
            self.wf(),
            start <= self.cursor(),
        ensures
            data@ == (TokenDataView {
                v: self.source().subrange(start as int, self.cursor()),
                l: at.line as nat,
                c: at.column as nat,
            }),
    {
        TokenData { v: self.slice_from(start), l: at.line, c: at.column }
    }

    /// The index of the character at the byte offset `offset`.
    fn index_of_offset(&self, offset: usize) -> (index: usize)
        requires
            self.wf(),
            is_boundary(self.source(), offset as nat),
        ensures
            index == index_at(self.source(), offset as nat),
            index <= self.source().len(),
            byte_offset(self.source(), index as int) == offset,
    {
        let ghost s = self.chars@;
        let ghost k = index_at(s, offset as nat);
        let mut index: usize = 0;
        let mut at: usize = 0;
        proof {
            assert(s.subrange(0, 0) =~= Seq::<char>::empty());
        }
        while at < offset
            invariant
                self.wf(),
                s == self.chars@,
                0 <= k <= s.len(),
                byte_offset(s, k) == offset,
                index <= k,
                at == byte_offset(s, index as int),
            decreases k - index,
        {
            proof {
                lemma_byte_offset_monotonic(s, index as int, k);
                assert(index < k);
                lemma_byte_offset_step(s, index as int);
                lemma_byte_offset_monotonic(s, index + 1, k);
            }
            at = at + utf8_width_of(self.chars[index]);
            index = index + 1;
        }
        proof {
            lemma_byte_offset_monotonic(s, index as int, k);
        }
        index
    }

    /// Whether the lexer has just read the token that [`scan`] finds at
    /// `start`, and `token` is that token.
    pub closed spec fn took_token(&self, before: &Self, token: Token) -> bool {
        let s = before.source();
        let start = before.cursor();
        &&& self.wf()
        &&& self.source() == s
        &&& scan(s, start) == (Scan::Token { kind: token.0, end: self.cursor() })
        &&& token_view(token) == lexeme_token(
            s,
            Lexeme { kind: token.0, start, end: self.cursor() },
        )
    }

    /// Lexes the rest of the source.
    ///
    /// Returns the tokens in source order, or the first lexer error with the
    /// place where the offending token starts.
    #[verifier::loop_isolation(false)]
    pub fn tokenize(&mut self) -> (result: Result<Vec<Token>, LexerError>)
        requires
            old(self).wf(),
        ensures
            final(self).wf(),
            final(self).source() == old(self).source(),
            match lex_from(old(self).source(), old(self).cursor(), Seq::empty()) {
                LexOutcome::Tokens(lexemes) => result matches Ok(tokens) && tokens_view(tokens@)
                    == lexeme_tokens(old(self).source(), lexemes),
                LexOutcome::Failed { kind, at } => result matches Err(e) && e.0 == kind && e.1
                    == location_at(old(self).source(), at),
            },
    {
        let mut tokens: Vec<Token> = Vec::new();
        let ghost s = self.source();
        let ghost first = self.cursor();
        let ghost mut lexemes: Seq<Lexeme> = Seq::empty();
        assert(tokens_view(tokens@) =~= lexeme_tokens(s, lexemes));
        loop
            invariant
                self.wf(),
                self.source() == s,
                lex_from(s, first, Seq::empty()) == lex_from(s, self.cursor(), lexemes),
                tokens_view(tokens@) == lexeme_tokens(s, lexemes),
            decreases s.len() - self.cursor(),
        {
            let ghost start = self.cursor();
            let c = match self.peek() {
                Some(c) => c,
                None => {
                    return Ok(tokens);
                },
            };
            proof {
                lemma_scan_bounds(s, start);
            }
            if c == ' ' || c == '\n' || c == '\t' || c == '\r' {
                self.next();
                continue ;
            }
            let ghost before = *self;
            let token: Token = if (c >= 'a' && c <= 'z') || (c >= 'A' && c <= 'Z') || c == '_' {
                self.consume_word()
            } else if c >= '0' && c <= '9' {
                self.consume_number()
            } else if c == '"' {
                match self.consume_string() {
                    Ok(t) => t,
                    Err(e) => {
                        return Err(e);
                    },
                }
            } else if c == '/' {
                match self.consume_comment_or_regex() {
                    Ok(Some(t)) => t,
                    Ok(None) => {
                        continue ;
                    },
                    Err(e) => {
                        return Err(e);
                    },
                }
            } else if c == '.' || c == '<' {
                self.consume_range_lt_dot_symmdiff()
            } else if c == '!' {
                self.consume_not_or_neq()
            } else {
                match single_char_variant(c) {
                    Some(kind) => (kind, self.single_char_token_next()),
                    None => {
                        return Err((LexError::TokenNotRecognized, self.location));
                    },
                }
            };
            proof {
                let lx = Lexeme { kind: token.0, start, end: self.cursor() };
                assert(scan(s, start) == (Scan::Token { kind: token.0, end: self.cursor() }));
                assert(token_view(token) == lexeme_token(s, lx));
                assert(tokens_view(tokens@.push(token)) =~= tokens_view(tokens@).push(
                    token_view(token),
                ));
                assert(lexeme_tokens(s, lexemes.push(lx)) =~= lexeme_tokens(s, lexemes).push(
                    lexeme_token(s, lx),
                ));
                lexemes = lexemes.push(lx);
            }
            tokens.push(token);
        }
    }

    #[verifier::loop_isolation(false)]
    fn consume_word(&mut self) -> (token: Token)
        requires
            old(self).wf(),
            old(self).cursor() < old(self).source().len(),
            is_word_start(old(self).source()[old(self).cursor()]),
        ensures
            final(self).took_token(old(self), token),
    {
        let initial_loc = self.location_snapshot();
        let start: usize = self.cursor;
        let ghost s = self.source();
        self.next();
        loop
            invariant
                self.wf(),
                self.source() == s,
                start < self.cursor() <= s.len(),
                word_end(s, start + 1) == word_end(s, self.cursor()),
            decreases s.len() - self.cursor(),
        {
            match self.peek() {
                Some(c) => {
                    if (c >= 'a' && c <= 'z') || (c >= 'A' && c <= 'Z') || c == '_' || (c >= '0'
                        && c <= '9') {
                        self.next();
                    } else {
                        break ;
                    }
                },
                None => {
                    break ;
                },
            }
        }
        let kind = word_variant(&self.chars, start, self.cursor);
        let token_data = TokenData {
            v: self.slice_from(start),
            l: initial_loc.line,
            c: initial_loc.column,
        };
        proof {
            lemma_column_bound(s, start as int);
        }
        (kind, token_data)
    }

    #[verifier::loop_isolation(false)]
    fn consume_comment_or_regex(&mut self) -> (result: Result<Option<Token>, LexerError>)
        requires
            old(self).wf(),
            old(self).cursor() < old(self).source().len(),
            old(self).source()[old(self).cursor()] == '/',
        ensures
            final(self).wf(),
            final(self).source() == old(self).source(),
            match scan(old(self).source(), old(self).cursor()) {
                Scan::Token { .. } => result matches Ok(Some(token)) && final(self).took_token(
                    old(self),
                    token,
                ),
                Scan::Comment { end } => result == Ok::<Option<Token>, LexerError>(None)
                    && final(self).cursor() == end,
                Scan::Error { error } => result matches Err(e) && e.0 == error && e.1 == location_at(
                    old(self).source(),
                    old(self).cursor(),
                ),
            },
    {
        let initial_loc = self.location_snapshot();
        let start: usize = self.cursor;
        let ghost s = self.source();
        self.next();
        if self.peek() == Some('/') {
            self.next();
            loop
                invariant
                    self.wf(),
                    self.source() == s,
                    start + 2 <= self.cursor() <= s.len(),
                    line_end(s, start + 2) == line_end(s, self.cursor()),
                decreases s.len() - self.cursor(),
            {
                match self.next() {
                    Some(c) => {
                        if c == '\n' {
                            break ;
                        }
                    },
                    None => {
                        break ;
                    },
                }
            }
            return Ok(None);
        }
        proof {
            lemma_find_char_bounds(s, start + 1, '/');
            lemma_column_bound(s, start as int);
        }
        loop
            invariant
                self.wf(),
                self.source() == s,
                start + 1 <= self.cursor() <= s.len(),
                find_char(s, start + 1, '/') == find_char(s, self.cursor(), '/'),
                initial_loc == location_at(s, start as int),
            decreases s.len() - self.cursor(),
        {
            match self.next() {
                Some(c) => {
                    if c == '/' {
                        return Ok(
                            Some((TokenVariant::Regex, self.delimited_from(start, &initial_loc))),
                        );
                    }
                },
                None => {
                    return Err((LexError::MalformedRegex, initial_loc));
                },
            }
        }
    }

    #[verifier::loop_isolation(false)]
    fn consume_string(&mut self) -> (result: Result<Token, LexerError>)
        requires
            old(self).wf(),
            old(self).cursor() < old(self).source().len(),
            old(self).source()[old(self).cursor()] == '"',
        ensures
            final(self).wf(),
            final(self).source() == old(self).source(),
            match scan(old(self).source(), old(self).cursor()) {
                Scan::Token { .. } => result matches Ok(token) && final(self).took_token(
                    old(self),
                    token,
                ),
                Scan::Comment { .. } => false,
                Scan::Error { error } => result matches Err(e) && e.0 == error && e.1 == location_at(
                    old(self).source(),
                    old(self).cursor(),
                ),
            },
    {
        let initial_loc = self.location_snapshot();
        let start: usize = self.cursor;
        let ghost s = self.source();
        self.next();
        proof {
            lemma_find_char_bounds(s, start + 1, '"');
            lemma_column_bound(s, start as int);
        }
        loop
            invariant
                self.wf(),
                self.source() == s,
                start + 1 <= self.cursor() <= s.len(),
                find_char(s, start + 1, '"') == find_char(s, self.cursor(), '"'),
                initial_loc == location_at(s, start as int),
                s[start as int] == '"',
            decreases s.len() - self.cursor(),
        {
            match self.next() {
                Some(c) => {
                    if c == '"' {
                        return Ok((TokenVariant::String, self.delimited_from(start, &initial_loc)));
                    }
                },
                None => {
                    return Err((LexError::StringNotTerminated, initial_loc));
                },
            }
        }
    }

    /// Reads `<` or `<>`, the cursor being on the `<`.
    fn consume_lt_or_symdiff(&mut self) -> (token: Token)
        requires
            old(self).wf(),
            old(self).cursor() < old(self).source().len(),
            old(self).source()[old(self).cursor()] == '<',
            !(old(self).cursor() + 1 < old(self).source().len()
                && old(self).source()[old(self).cursor() + 1] == '.'),
        ensures
            final(self).took_token(old(self), token),
    {
        let initial_loc = self.location_snapshot();
        let start: usize = self.cursor;
        proof {
            lemma_column_bound(self.source(), start as int);
        }
        self.next();
        match self.peek() {
            Some('>') => {
                self.next();
                (
                    TokenVariant::SymmDiff,
                    self.data_from(start, &initial_loc),
                )
            },
            _ => (TokenVariant::Lt, self.data_from(start, &initial_loc)),
        }
    }

    fn consume_not_or_neq(&mut self) -> (token: Token)
        requires
            old(self).wf(),
            old(self).cursor() < old(self).source().len(),
            old(self).source()[old(self).cursor()] == '!',
        ensures
            final(self).took_token(old(self), token),
    {
        let initial_loc = self.location_snapshot();
        let start: usize = self.cursor;
        proof {
            lemma_column_bound(self.source(), start as int);
        }
        self.next();
        match self.peek() {
            Some('=') => {
                self.next();
                (
                    TokenVariant::Neq,
                    self.data_from(start, &initial_loc),
                )
            },
            _ => (TokenVariant::Not, self.data_from(start, &initial_loc)),
        }
    }

    #[verifier::loop_isolation(false)]
    fn consume_number(&mut self) -> (token: Token)
        requires
            old(self).wf(),
            old(self).cursor() < old(self).source().len(),
            is_digit(old(self).source()[old(self).cursor()]),
        ensures
            final(self).took_token(old(self), token),
    {
        let initial_loc = self.location_snapshot();
        let start: usize = self.cursor;
        let ghost s = self.source();
        let mut has_decimal_point = false;
        proof {
            lemma_column_bound(s, start as int);
        }
        loop
            invariant
                self.wf(),
                self.source() == s,
                start <= self.cursor() <= s.len(),
                number_end(s, start as int, false) == number_end(
                    s,
                    self.cursor(),
                    has_decimal_point,
                ),
            decreases s.len() - self.cursor(),
        {
            match self.peek() {
                Some(c) => {
                    if c >= '0' && c <= '9' {
                        self.next();
                    } else if c == '.' && !has_decimal_point {
                        let digit_follows = match self.peek_second() {
                            Some(d) => d >= '0' && d <= '9',
                            None => false,
                        };
                        if digit_follows {
                            has_decimal_point = true;
                            self.next();
                        } else {
                            break ;
                        }
                    } else {
                        break ;
                    }
                },
                None => {
                    break ;
                },
            }
        }
        (TokenVariant::Number, self.data_from(start, &initial_loc))
    }

    fn consume_range_lt_dot_symmdiff(&mut self) -> (token: Token)
        requires
            old(self).wf(),
            old(self).cursor() < old(self).source().len(),
            old(self).source()[old(self).cursor()] == '.'
                || old(self).source()[old(self).cursor()] == '<',
        ensures
            final(self).took_token(old(self), token),
    {
        let initial_loc = self.location_snapshot();
        let start: usize = self.cursor;
        proof {
            lemma_column_bound(self.source(), start as int);
        }
        let first = self.peek();
        let second = self.peek_second();
        if first == Some('<') && second != Some('.') {
            return self.consume_lt_or_symdiff();
        }
        self.next();
        let variant = if first == Some('.') {
            match self.peek() {
                Some('.') | Some('<') => {
                    self.next();
                    TokenVariant::Range
                },
                _ => TokenVariant::Dot,
            }
        } else {
            self.next();
            match self.peek() {
                Some('<') => {
                    self.next();
                    TokenVariant::Range
                },
                _ => TokenVariant::Range,
            }
        };
        (variant, self.data_from(start, &initial_loc))
    }
}

/// The kind of a punctuation character that is a token by itself.
fn single_char_variant(c: char) -> (kind: Option<TokenVariant>)
    ensures
        kind == single_char_kind(c),
{
    if c == '@' {
        Some(TokenVariant::At)
    } else if c == ':' {
        Some(TokenVariant::Colon)
    } else if c == '$' {
        Some(TokenVariant::Dollar)
    } else if c == '|' {
        Some(TokenVariant::Or)
    } else if c == '&' {
        Some(TokenVariant::And)
    } else if c == '(' {
        Some(TokenVariant::LParen)
    } else if c == ')' {
        Some(TokenVariant::RParen)
    } else if c == ',' {
        Some(TokenVariant::Comma)
    } else if c == '{' {
        Some(TokenVariant::LCurly)
    } else if c == '}' {
        Some(TokenVariant::RCurly)
    } else if c == '[' {
        Some(TokenVariant::LBracket)
    } else if c == ']' {
        Some(TokenVariant::RBracket)
    } else if c == '>' {
        Some(TokenVariant::Gt)
    } else if c == ';' {
        Some(TokenVariant::Semicolon)
    } else if c == '+' {
        Some(TokenVariant::Plus)
    } else if c == '-' {
        Some(TokenVariant::Minus)
    } else if c == '*' {
        Some(TokenVariant::Asterix)
    } else if c == '^' {
        Some(TokenVariant::Caret)
    } else if c == '=' {
        Some(TokenVariant::Eq)
    } else if c == '\\' {
        Some(TokenVariant::Backslash)
    } else {
        None
    }
}

/// The kind of the word `chars[start..end]`.
fn word_variant(chars: &Vec<char>, start: usize, end: usize) -> (kind: TokenVariant)
    requires
        start <= end <= chars@.len(),
    ensures
        kind == word_kind(chars@.subrange(start as int, end as int)),
{
    let n: usize = end - start;
    let ghost word = chars@.subrange(start as int, end as int);
    if n == 4 && chars[start] == 't' && chars[start + 1] == 'y' && chars[start + 2] == 'p'
        && chars[start + 3] == 'e' {
        assert(word =~= seq!['t', 'y', 'p', 'e']);
        TokenVariant::Type
    } else if n == 3 && chars[start] == 's' && chars[start + 1] == 'e' && chars[start + 2]
        == 't' {
        assert(word =~= seq!['s', 'e', 't']);
        TokenVariant::SetKw
    } else if n == 4 && chars[start] == 'e' && chars[start + 1] == 'n' && chars[start + 2] == 'u'
        && chars[start + 3] == 'm' {
        assert(word =~= seq!['e', 'n', 'u', 'm']);
        TokenVariant::Enum
    } else if n == 4 && chars[start] == 't' && chars[start + 1] == 'r' && chars[start + 2] == 'u'
        && chars[start + 3] == 'e' {
        assert(word =~= seq!['t', 'r', 'u', 'e']);
        TokenVariant::True
    } else if n == 5 && chars[start] == 'f' && chars[start + 1] == 'a' && chars[start + 2] == 'l'
        && chars[start + 3] == 's' && chars[start + 4] == 'e' {
        assert(word =~= seq!['f', 'a', 'l', 's', 'e']);
        TokenVariant::False
    } else {
        proof {
            let kws = seq![
                seq!['t', 'y', 'p', 'e'],
                seq!['s', 'e', 't'],
                seq!['e', 'n', 'u', 'm'],
                seq!['t', 'r', 'u', 'e'],
                seq!['f', 'a', 'l', 's', 'e'],
            ];
            assert(forall|k: int| 0 <= k < word.len() ==> word[k] == chars@[start + k]);
            assert(word != kws[0]) by {
                if word == kws[0] {
                    assert(word[0] == 't' && word[1] == 'y' && word[2] == 'p' && word[3] == 'e');
                }
            }
            assert(word != kws[1]) by {
                if word == kws[1] {
                    assert(word[0] == 's' && word[1] == 'e' && word[2] == 't');
                }
            }
            assert(word != kws[2]) by {
                if word == kws[2] {
                    assert(word[0] == 'e' && word[1] == 'n' && word[2] == 'u' && word[3] == 'm');
                }
            }
            assert(word != kws[3]) by {
                if word == kws[3] {
                    assert(word[0] == 't' && word[1] == 'r' && word[2] == 'u' && word[3] == 'e');
                }
            }
            assert(word != kws[4]) by {
                if word == kws[4] {
                    assert(word[0] == 'f' && word[1] == 'a' && word[2] == 'l' && word[3] == 's'
                        && word[4] == 'e');
                }
            }
        }
        TokenVariant::Identifier
    }
}

/// Lexes `src` from its start.
pub fn tokenizer(src: &str) -> (result: Result<Vec<Token>, LexerError>)
    ensures
        match crate::lexing::lex(src@) {
            LexOutcome::Tokens(lexemes) => result matches Ok(tokens) && tokens_view(tokens@)
                == lexeme_tokens(src@, lexemes),
            LexOutcome::Failed { kind, at } => result matches Err(e) && e.0 == kind && e.1
                == location_at(src@, at),
        },
{
    let mut lexer = Lexer::new(src);
    lexer.tokenize()
}

} // verus!
