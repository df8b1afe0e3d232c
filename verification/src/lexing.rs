//! The lexical structure of the language, as functions of the source text.
//!
//! Everything here is mathematics over `Seq<char>`: where a lexeme that starts
//! at a given character ends, what kind it has, and which line and column a
//! character index lies on. The executable lexer is proved against it.

use crate::lexer::{LexerLocation, LexError};
use crate::tokens::{SpecToken, TokenDataView, TokenVariant};
use vstd::prelude::*;
use vstd::utf8::{encode_scalar, encode_utf8};

verus! {

/// Whether `c` is whitespace: a space, a line feed, a tab or a carriage
/// return.
pub open spec fn is_space(c: char) -> bool {
    c == ' ' || c == '\n' || c == '\t' || c == '\r'
}

/// Whether `c` is a decimal digit.
pub open spec fn is_digit(c: char) -> bool {
    '0' <= c <= '9'
}

/// Whether `c` can start a word: a letter or an underscore.
pub open spec fn is_word_start(c: char) -> bool {
    ('a' <= c <= 'z') || ('A' <= c <= 'Z') || c == '_'
}

/// Whether `c` can continue a word: a letter, an underscore or a digit.
pub open spec fn is_word_char(c: char) -> bool {
    is_word_start(c) || is_digit(c)
}

/// The kind of a punctuation character that is a token by itself whatever
/// follows it.
pub open spec fn single_char_kind(c: char) -> Option<TokenVariant> {
    if c == '@' {
        Some(TokenVariant::At)
    } else if c == ':' {
        Some(TokenVariant::Colon)
    } else if c == '$' {
        Some(TokenVariant::Dollar)
    } else if c == '|' {
        Some(TokenVariant::Or)
    } else if c == '&' {
        Some(TokenVariant::And)
    } else if c == '(' {
        Some(TokenVariant::LParen)
    } else if c == ')' {
        Some(TokenVariant::RParen)
    } else if c == ',' {
        Some(TokenVariant::Comma)
    } else if c == '{' {
        Some(TokenVariant::LCurly)
    } else if c == '}' {
        Some(TokenVariant::RCurly)
    } else if c == '[' {
        Some(TokenVariant::LBracket)
    } else if c == ']' {
        Some(TokenVariant::RBracket)
    } else if c == '>' {
        Some(TokenVariant::Gt)
    } else if c == ';' {
        Some(TokenVariant::Semicolon)
    } else if c == '+' {
        Some(TokenVariant::Plus)
    } else if c == '-' {
        Some(TokenVariant::Minus)
    } else if c == '*' {
        Some(TokenVariant::Asterix)
    } else if c == '^' {
        Some(TokenVariant::Caret)
    } else if c == '=' {
        Some(TokenVariant::Eq)
    } else if c == '\\' {
        Some(TokenVariant::Backslash)
    } else {
        None
    }
}

/// The kind of a word: one of the five keywords, or an identifier.
pub open spec fn word_kind(word: Seq<char>) -> TokenVariant {
    if word == seq!['t', 'y', 'p', 'e'] {
        TokenVariant::Type
    } else if word == seq!['s', 'e', 't'] {
        TokenVariant::SetKw
    } else if word == seq!['e', 'n', 'u', 'm'] {
        TokenVariant::Enum
    } else if word == seq!['t', 'r', 'u', 'e'] {
        TokenVariant::True
    } else if word == seq!['f', 'a', 'l', 's', 'e'] {
        TokenVariant::False
    } else {
        TokenVariant::Identifier
    }
}

/// The first index at or after `i` that holds no word character.
pub open spec fn word_end(s: Seq<char>, i: int) -> int
    decreases s.len() - i,
{
    if 0 <= i < s.len() && is_word_char(s[i]) {
        word_end(s, i + 1)
    } else {
        i
    }
}

/// Where the number that is being read at `i` ends. A dot belongs to the
/// number only if none was taken before and a digit follows it.
pub open spec fn number_end(s: Seq<char>, i: int, dot_seen: bool) -> int
    decreases s.len() - i,
{
    if 0 <= i < s.len() && is_digit(s[i]) {
        number_end(s, i + 1, dot_seen)
    } else if 0 <= i < s.len() && s[i] == '.' && !dot_seen && i + 1 < s.len() && is_digit(
        s[i + 1],
    ) {
        number_end(s, i + 1, true)
    } else {
        i
    }
}

/// The first index at or after `i` that holds `d`, or `s.len()` if there is
/// none.
pub open spec fn find_char(s: Seq<char>, i: int, d: char) -> int
    decreases s.len() - i,
{
    if 0 <= i < s.len() && s[i] != d {
        find_char(s, i + 1, d)
    } else {
        i
    }
}

/// The index just behind the line that `i` lies on: behind its line feed, or
/// the end of the text.
pub open spec fn line_end(s: Seq<char>, i: int) -> int
    decreases s.len() - i,
{
    if 0 <= i < s.len() {
        if s[i] == '\n' {
            i + 1
        } else {
            line_end(s, i + 1)
        }
    } else {
        i
    }
}

/// Whether a line comment starts at `i`.
pub open spec fn starts_comment(s: Seq<char>, i: int) -> bool {
    0 <= i && i + 1 < s.len() && s[i] == '/' && s[i + 1] == '/'
}

/// What stands at a character that is no whitespace.
pub enum Scan {
    /// A token of this kind, ending before `end`.
    Token { kind: TokenVariant, end: int },
    /// A line comment, ending before `end`.
    Comment { end: int },
    /// Nothing that the language knows.
    Error { error: LexError },
}

/// What stands at `i`, for `0 <= i < s.len()` and `s[i]` no whitespace.
pub open spec fn scan(s: Seq<char>, i: int) -> Scan {
    let c = s[i];
    let next = if i + 1 < s.len() {
        Some(s[i + 1])
    } else {
        None
    };
    if is_word_start(c) {
        let end = word_end(s, i + 1);
        Scan::Token { kind: word_kind(s.subrange(i, end)), end }
    } else if is_digit(c) {
        Scan::Token { kind: TokenVariant::Number, end: number_end(s, i, false) }
    } else if c == '"' {
        let close = find_char(s, i + 1, '"');
        if close < s.len() {
            Scan::Token { kind: TokenVariant::String, end: close + 1 }
        } else {
            Scan::Error { error: LexError::StringNotTerminated }
        }
    } else if c == '/' {
        if next == Some('/') {
            Scan::Comment { end: line_end(s, i + 2) }
        } else {
            let close = find_char(s, i + 1, '/');
            if close < s.len() {
                Scan::Token { kind: TokenVariant::Regex, end: close + 1 }
            } else {
                Scan::Error { error: LexError::MalformedRegex }
            }
        }
    } else if c == '.' {
        if next == Some('.') || next == Some('<') {
            Scan::Token { kind: TokenVariant::Range, end: i + 2 }
        } else {
            Scan::Token { kind: TokenVariant::Dot, end: i + 1 }
        }
    } else if c == '<' {
        if next == Some('.') {
            if i + 2 < s.len() && s[i + 2] == '<' {
                Scan::Token { kind: TokenVariant::Range, end: i + 3 }
            } else {
                Scan::Token { kind: TokenVariant::Range, end: i + 2 }
            }
        } else if next == Some('>') {
            Scan::Token { kind: TokenVariant::SymmDiff, end: i + 2 }
        } else {
            Scan::Token { kind: TokenVariant::Lt, end: i + 1 }
        }
    } else if c == '!' {
        if next == Some('=') {
            Scan::Token { kind: TokenVariant::Neq, end: i + 2 }
        } else {
            Scan::Token { kind: TokenVariant::Not, end: i + 1 }
        }
    } else {
        match single_char_kind(c) {
            Some(kind) => Scan::Token { kind, end: i + 1 },
            None => Scan::Error { error: LexError::TokenNotRecognized },
        }
    }
}

/// A token's place in the source: its kind and the characters `start..end`
/// that it covers, delimiters included.
pub struct Lexeme {
    pub kind: TokenVariant,
    pub start: int,
    pub end: int,
}

/// The result of lexing a text.
pub enum LexOutcome {
    /// The lexemes of the whole text, in order.
    Tokens(Seq<Lexeme>),
    /// The first character at which no rule applies, and why.
    Failed { kind: LexError, at: int },
}

/// Lexes `s` from `i` on, behind the lexemes `acc` found before `i`.
pub open spec fn lex_from(s: Seq<char>, i: int, acc: Seq<Lexeme>) -> LexOutcome
    decreases s.len() - i,
{
    if i < 0 || i >= s.len() {
        LexOutcome::Tokens(acc)
    } else if is_space(s[i]) {
        lex_from(s, i + 1, acc)
    } else {
        proof {
            lemma_scan_bounds(s, i);
        }
        match scan(s, i) {
            Scan::Error { error } => LexOutcome::Failed { kind: error, at: i },
            Scan::Comment { end } => lex_from(s, end, acc),
            Scan::Token { kind, end } => lex_from(s, end, acc.push(Lexeme { kind, start: i, end })),
        }
    }
}

/// Lexes the whole of `s`.
pub open spec fn lex(s: Seq<char>) -> LexOutcome {
    lex_from(s, 0, Seq::empty())
}

/// The 1-based line that index `i` lies on: one more than the number of line
/// feeds before it.
pub open spec fn line_of(s: Seq<char>, i: int) -> nat
    decreases i,
{
    if i <= 0 {
        1
    } else if s[i - 1] == '\n' {
        line_of(s, i - 1) + 1
    } else {
        line_of(s, i - 1)
    }
}

/// The 1-based column of index `i`: one more than the number of characters
/// between it and the line feed before it.
pub open spec fn column_of(s: Seq<char>, i: int) -> nat
    decreases i,
{
    if i <= 0 {
        1
    } else if s[i - 1] == '\n' {
        1
    } else {
        column_of(s, i - 1) + 1
    }
}

/// The number of bytes that the first `i` characters take in UTF-8.
pub open spec fn byte_offset(s: Seq<char>, i: int) -> nat {
    encode_utf8(s.subrange(0, i)).len()
}

/// The number of bytes that `c` takes in UTF-8.
pub open spec fn utf8_width(c: char) -> nat {
    encode_scalar(c as u32).len()
}

/// Whether a character of `s`, or its end, lies at the byte offset `offset`.
pub open spec fn is_boundary(s: Seq<char>, offset: nat) -> bool {
    exists|i: int| 0 <= i <= s.len() && byte_offset(s, i) == offset
}

/// The index of the character of `s` at the byte offset `offset`.
pub open spec fn index_at(s: Seq<char>, offset: nat) -> int {
    choose|i: int| 0 <= i <= s.len() && byte_offset(s, i) == offset
}

/// The largest machine integer, if `n` is larger than that; else `n`.
pub open spec fn clamp(n: nat) -> usize {
    if n > usize::MAX {
        usize::MAX
    } else {
        n as usize
    }
}

/// The place of index `i` in `s`: its byte offset, its line and its column.
///
/// A line or a column that is no machine integer is given as the largest
/// one. This can only be behind the last character of a text of the largest
/// length that a machine can hold: the place of every character is exact.
pub open spec fn location_at(s: Seq<char>, i: int) -> LexerLocation {
    LexerLocation {
        src_index: byte_offset(s, i) as usize,
        line: clamp(line_of(s, i)),
        column: clamp(column_of(s, i)),
    }
}

/// The text of a lexeme as its token carries it: without the delimiters for a
/// string or a regex, the covered characters for any other kind.
pub open spec fn lexeme_text(s: Seq<char>, lx: Lexeme) -> Seq<char> {
    if lx.kind == TokenVariant::String || lx.kind == TokenVariant::Regex {
        s.subrange(lx.start + 1, lx.end - 1)
    } else {
        s.subrange(lx.start, lx.end)
    }
}

/// The token that a lexeme of `s` gives.
pub open spec fn lexeme_token(s: Seq<char>, lx: Lexeme) -> SpecToken {
    (
        lx.kind,
        TokenDataView {
            v: lexeme_text(s, lx),
            l: line_of(s, lx.start),
            c: column_of(s, lx.start),
        },
    )
}

/// The tokens that the lexemes of `s` give.
pub open spec fn lexeme_tokens(s: Seq<char>, lexemes: Seq<Lexeme>) -> Seq<SpecToken> {
    lexemes.map_values(|lx: Lexeme| lexeme_token(s, lx))
}

/// A word ends within the text, holds word characters only, and is not
/// followed by one.
pub proof fn lemma_word_end_bounds(s: Seq<char>, i: int)
    requires
        0 <= i <= s.len(),
    ensures
        i <= word_end(s, i) <= s.len(),
        forall|k: int| i <= k < word_end(s, i) ==> is_word_char(#[trigger] s[k]),
        word_end(s, i) < s.len() ==> !is_word_char(s[word_end(s, i)]),
    decreases s.len() - i,
{
    if i < s.len() && is_word_char(s[i]) {
        lemma_word_end_bounds(s, i + 1);
    }
}

/// A number ends within the text, and behind its first digit.
pub proof fn lemma_number_end_bounds(s: Seq<char>, i: int, dot_seen: bool)
    requires
        0 <= i <= s.len(),
    ensures
        i <= number_end(s, i, dot_seen) <= s.len(),
        i < s.len() && is_digit(s[i]) ==> i < number_end(s, i, dot_seen),
    decreases s.len() - i,
{
    if i < s.len() && is_digit(s[i]) {
        lemma_number_end_bounds(s, i + 1, dot_seen);
    } else if i < s.len() && s[i] == '.' && !dot_seen && i + 1 < s.len() && is_digit(s[i + 1]) {
        lemma_number_end_bounds(s, i + 1, true);
    }
}

/// The character that is searched for is found within the text, or at its
/// end, and does not occur before the place where it is found.
pub proof fn lemma_find_char_bounds(s: Seq<char>, i: int, d: char)
    requires
        0 <= i <= s.len(),
    ensures
        i <= find_char(s, i, d) <= s.len(),
        find_char(s, i, d) < s.len() ==> s[find_char(s, i, d)] == d,
        forall|k: int| i <= k < find_char(s, i, d) ==> #[trigger] s[k] != d,
    decreases s.len() - i,
{
    if i < s.len() && s[i] != d {
        lemma_find_char_bounds(s, i + 1, d);
    }
}

/// A line ends within the text.
pub proof fn lemma_line_end_bounds(s: Seq<char>, i: int)
    requires
        0 <= i <= s.len(),
    ensures
        i <= line_end(s, i) <= s.len(),
    decreases s.len() - i,
{
    if i < s.len() && s[i] != '\n' {
        lemma_line_end_bounds(s, i + 1);
    }
}

/// A token or a comment that starts inside the text is not empty and ends
/// inside the text.
pub proof fn lemma_scan_bounds(s: Seq<char>, i: int)
    requires
        0 <= i < s.len(),
    ensures
        scan(s, i) matches Scan::Token { end, .. } ==> i < end <= s.len(),
        scan(s, i) matches Scan::Comment { end } ==> i < end <= s.len(),
{
    lemma_word_end_bounds(s, i + 1);
    lemma_number_end_bounds(s, i, false);
    lemma_find_char_bounds(s, i + 1, '"');
    lemma_find_char_bounds(s, i + 1, '/');
    if i + 2 <= s.len() {
        lemma_line_end_bounds(s, i + 2);
    }
}

/// A text that does not lex fails at one of its characters.
pub proof fn lemma_lex_failure_bounds(s: Seq<char>, i: int, acc: Seq<Lexeme>)
    requires
        0 <= i,
    ensures
        lex_from(s, i, acc) matches LexOutcome::Failed { at, .. } ==> i <= at < s.len(),
    decreases s.len() - i,
{
    if i >= s.len() {
    } else if is_space(s[i]) {
        lemma_lex_failure_bounds(s, i + 1, acc);
    } else {
        lemma_scan_bounds(s, i);
        match scan(s, i) {
            Scan::Error { .. } => {},
            Scan::Comment { end } => {
                lemma_lex_failure_bounds(s, end, acc);
            },
            Scan::Token { kind, end } => {
                lemma_lex_failure_bounds(s, end, acc.push(Lexeme { kind, start: i, end }));
            },
        }
    }
}

/// Encoding a text and one more character appends that character's bytes.
pub proof fn lemma_encode_push(a: Seq<char>, c: char)
    ensures
        encode_utf8(a.push(c)) == encode_utf8(a) + encode_scalar(c as u32),
    decreases a.len(),
{
    if a.len() == 0 {
        assert(a.push(c).drop_first() =~= Seq::<char>::empty());
        assert(a.push(c)[0] == c);
        assert(encode_utf8(a.push(c).drop_first()) =~= Seq::<u8>::empty());
        assert(encode_utf8(a) =~= Seq::<u8>::empty());
        assert(encode_utf8(a.push(c)) == encode_scalar(c as u32) + encode_utf8(
            a.push(c).drop_first(),
        ));
        assert(encode_utf8(a.push(c)) =~= encode_utf8(a) + encode_scalar(c as u32));
    } else {
        lemma_encode_push(a.drop_first(), c);
        assert(a.push(c).drop_first() =~= a.drop_first().push(c));
        assert(a.push(c)[0] == a[0]);
        assert(encode_utf8(a.push(c)) == encode_scalar(a[0] as u32) + encode_utf8(
            a.drop_first().push(c),
        ));
        assert(encode_utf8(a) == encode_scalar(a[0] as u32) + encode_utf8(a.drop_first()));
        assert(encode_utf8(a.push(c)) =~= encode_utf8(a) + encode_scalar(c as u32));
    }
}

/// Stepping over one character moves the byte offset by that character's
/// width, which is at least one byte.
pub proof fn lemma_byte_offset_step(s: Seq<char>, i: int)
    requires
        0 <= i < s.len(),
    ensures
        byte_offset(s, i + 1) == byte_offset(s, i) + utf8_width(s[i]),
        1 <= utf8_width(s[i]) <= 4,
{
    lemma_encode_push(s.subrange(0, i), s[i]);
    assert(s.subrange(0, i + 1) =~= s.subrange(0, i).push(s[i]));
}

/// The byte offset grows with the index, by at least one byte for each
/// character.
pub proof fn lemma_byte_offset_monotonic(s: Seq<char>, i: int, j: int)
    requires
        0 <= i <= j <= s.len(),
    ensures
        byte_offset(s, i) + (j - i) <= byte_offset(s, j),
    decreases j - i,
{
    if i < j {
        lemma_byte_offset_monotonic(s, i, j - 1);
        lemma_byte_offset_step(s, j - 1);
    }
}

/// Every index lies at a byte offset of its own: the offset of an index is
/// a boundary, and the index at that offset is the index itself.
pub proof fn lemma_index_at(s: Seq<char>, i: int)
    requires
        0 <= i <= s.len(),
    ensures
        is_boundary(s, byte_offset(s, i)),
        index_at(s, byte_offset(s, i)) == i,
{
    let k = index_at(s, byte_offset(s, i));
    if k < i {
        lemma_byte_offset_monotonic(s, k, i);
    }
    if i < k {
        lemma_byte_offset_monotonic(s, i, k);
    }
}

/// Lines and columns start at 1 and are at most one more than the index.
pub proof fn lemma_column_bound(s: Seq<char>, i: int)
    requires
        0 <= i,
    ensures
        1 <= column_of(s, i) <= i + 1,
        1 <= line_of(s, i) <= i + 1,
    decreases i,
{
    if i > 0 {
        lemma_column_bound(s, i - 1);
    }
}

/// Whether `s[from..to]` holds nothing but whitespace and whole line
/// comments.
pub open spec fn is_trivia(s: Seq<char>, from: int, to: int) -> bool
    decreases to - from,
{
    if from >= to {
        from == to
    } else if is_space(s[from]) {
        is_trivia(s, from + 1, to)
    } else if starts_comment(s, from) {
        let end = line_end(s, from + 2);
        from < end <= to && is_trivia(s, end, to)
    } else {
        false
    }
}

/// The source characters of a lexeme: its token's text, inside its
/// delimiters where the kind has them.
pub open spec fn lexeme_source(s: Seq<char>, lx: Lexeme) -> Seq<char> {
    let text = lexeme_token(s, lx).1.v;
    if lx.kind == TokenVariant::String {
        seq!['"'] + text + seq!['"']
    } else if lx.kind == TokenVariant::Regex {
        seq!['/'] + text + seq!['/']
    } else {
        text
    }
}

/// Where the gap before lexeme `k` starts: at the end of the lexeme before
/// it, or at the start of the text. For `k == lexemes.len()` this is the
/// start of the gap behind the last lexeme.
#[verifier::opaque]
pub open spec fn gap_start(lexemes: Seq<Lexeme>, k: int) -> int {
    if k <= 0 {
        0
    } else {
        lexemes[k - 1].end
    }
}

/// The first `k` lexemes, each behind the gap that precedes it, put together
/// again.
pub open spec fn reassembled(s: Seq<char>, lexemes: Seq<Lexeme>, k: int) -> Seq<char>
    decreases k,
{
    if k <= 0 {
        Seq::empty()
    } else {
        reassembled(s, lexemes, k - 1) + s.subrange(
            gap_start(lexemes, k - 1),
            lexemes[k - 1].start,
        ) + lexeme_source(s, lexemes[k - 1])
    }
}

/// All lexemes and all gaps put together again, the gap behind the last
/// lexeme included.
pub open spec fn reassemble(s: Seq<char>, lexemes: Seq<Lexeme>) -> Seq<char> {
    reassembled(s, lexemes, lexemes.len() as int) + s.subrange(
        gap_start(lexemes, lexemes.len() as int),
        s.len() as int,
    )
}

/// Whether the lexemes lie in `s` one behind the other, none of them empty,
/// each holding exactly the source characters of its token.
pub open spec fn spans_in_order(s: Seq<char>, lexemes: Seq<Lexeme>) -> bool {
    &&& forall|k: int|
        0 <= k < lexemes.len() ==> {
            &&& 0 <= (#[trigger] lexemes[k]).start < lexemes[k].end <= s.len()
            &&& lexeme_source(s, lexemes[k]) == s.subrange(lexemes[k].start, lexemes[k].end)
        }
    &&& forall|j: int, k: int|
        0 <= j < k < lexemes.len() ==> (#[trigger] lexemes[j]).end <= (#[trigger] lexemes[k]).start
}

/// Whether every gap, before, between and behind the lexemes, is trivia.
pub open spec fn gaps_are_trivia(s: Seq<char>, lexemes: Seq<Lexeme>) -> bool {
    &&& forall|k: int|
        0 <= k < lexemes.len() ==> is_trivia(s, #[trigger] gap_start(lexemes, k), lexemes[k].start)
    &&& is_trivia(s, gap_start(lexemes, lexemes.len() as int), s.len() as int)
}

proof fn lemma_trivia_extend_space(s: Seq<char>, a: int, b: int)
    requires
        0 <= a <= b < s.len(),
        is_trivia(s, a, b),
        is_space(s[b]),
    ensures
        is_trivia(s, a, b + 1),
    decreases b - a,
{
    if a == b {
        assert(is_trivia(s, b + 1, b + 1));
    } else if is_space(s[a]) {
        lemma_trivia_extend_space(s, a + 1, b);
    } else {
        lemma_line_end_bounds(s, a + 2);
        lemma_trivia_extend_space(s, line_end(s, a + 2), b);
    }
}

proof fn lemma_trivia_extend_comment(s: Seq<char>, a: int, b: int)
    requires
        0 <= a <= b < s.len(),
        is_trivia(s, a, b),
        starts_comment(s, b),
    ensures
        is_trivia(s, a, line_end(s, b + 2)),
    decreases b - a,
{
    lemma_line_end_bounds(s, b + 2);
    if a == b {
        assert(is_trivia(s, line_end(s, b + 2), line_end(s, b + 2)));
    } else if is_space(s[a]) {
        lemma_trivia_extend_comment(s, a + 1, b);
    } else {
        lemma_line_end_bounds(s, a + 2);
        lemma_trivia_extend_comment(s, line_end(s, a + 2), b);
    }
}

/// A token that [`scan`] finds covers exactly the source characters of its
/// token: a string starts and ends with a quote, a regex with a slash.
proof fn lemma_scan_source(s: Seq<char>, i: int)
    requires
        0 <= i < s.len(),
    ensures
        scan(s, i) matches Scan::Token { kind, end } ==> lexeme_source(
            s,
            Lexeme { kind, start: i, end },
        ) == s.subrange(i, end),
{
    lemma_scan_bounds(s, i);
    lemma_find_char_bounds(s, i + 1, '"');
    lemma_find_char_bounds(s, i + 1, '/');
    if let Scan::Token { kind, end } = scan(s, i) {
        let lx = Lexeme { kind, start: i, end };
        if kind == TokenVariant::String {
            assert(seq!['"'] + s.subrange(i + 1, end - 1) + seq!['"'] =~= s.subrange(i, end));
        } else if kind == TokenVariant::Regex {
            assert(seq!['/'] + s.subrange(i + 1, end - 1) + seq!['/'] =~= s.subrange(i, end));
        }
    }
}

proof fn lemma_lex_from_tiles(s: Seq<char>, i: int, acc: Seq<Lexeme>)
    requires
        0 <= gap_start(acc, acc.len() as int) <= i <= s.len(),
        spans_in_order(s, acc),
        acc.len() > 0 ==> acc[acc.len() - 1].end <= i,
        forall|k: int| 0 <= k < acc.len() ==> is_trivia(s, #[trigger] gap_start(acc, k), acc[k].start),
        is_trivia(s, gap_start(acc, acc.len() as int), i),
    ensures
        lex_from(s, i, acc) matches LexOutcome::Tokens(lexemes) ==> spans_in_order(s, lexemes)
            && gaps_are_trivia(s, lexemes),
    decreases s.len() - i,
{
    reveal(gap_start);
    let g = gap_start(acc, acc.len() as int);
    if i >= s.len() {
    } else if is_space(s[i]) {
        lemma_trivia_extend_space(s, g, i);
        lemma_lex_from_tiles(s, i + 1, acc);
    } else {
        lemma_scan_bounds(s, i);
        lemma_scan_source(s, i);
        match scan(s, i) {
            Scan::Error { .. } => {},
            Scan::Comment { end } => {
                lemma_trivia_extend_comment(s, g, i);
                lemma_lex_from_tiles(s, end, acc);
            },
            Scan::Token { kind, end } => {
                let lx = Lexeme { kind, start: i, end };
                let next = acc.push(lx);
                assert forall|k: int| 0 <= k < next.len() implies {
                    &&& 0 <= (#[trigger] next[k]).start < next[k].end <= s.len()
                    &&& lexeme_source(s, next[k]) == s.subrange(next[k].start, next[k].end)
                } by {
                    if k < acc.len() {
                        assert(next[k] == acc[k]);
                    }
                }
                assert forall|k: int| 0 <= k < next.len() implies is_trivia(
                    s,
                    #[trigger] gap_start(next, k),
                    next[k].start,
                ) by {
                    if k < acc.len() {
                        assert(next[k] == acc[k]);
                        assert(gap_start(next, k) == gap_start(acc, k));
                    } else {
                        assert(gap_start(next, k) == g);
                    }
                }
                assert forall|j: int, k: int| 0 <= j < k < next.len() implies (
                #[trigger] next[j]).end <= (#[trigger] next[k]).start by {
                    if k < acc.len() {
                        assert(next[k] == acc[k] && next[j] == acc[j]);
                    } else if acc.len() > 0 {
                        assert(next[j] == acc[j]);
                        assert(acc[j].end <= acc[acc.len() - 1].end) by {
                            if j < acc.len() - 1 {
                                assert(acc[j].end <= acc[acc.len() - 1].start);
                            }
                        }
                    }
                }
                assert(is_trivia(s, end, end));
                lemma_lex_from_tiles(s, end, next);
            },
        }
    }
}

proof fn lemma_reassembled_prefix(s: Seq<char>, lexemes: Seq<Lexeme>, k: int)
    requires
        spans_in_order(s, lexemes),
        0 <= k <= lexemes.len(),
    ensures
        0 <= gap_start(lexemes, k) <= s.len(),
        reassembled(s, lexemes, k) == s.subrange(0, gap_start(lexemes, k)),
    decreases k,
{
    reveal(gap_start);
    if k > 0 {
        lemma_reassembled_prefix(s, lexemes, k - 1);
        let lx = lexemes[k - 1];
        assert(s.subrange(0, gap_start(lexemes, k - 1)) + s.subrange(
            gap_start(lexemes, k - 1),
            lx.start,
        ) + s.subrange(lx.start, lx.end) =~= s.subrange(0, lx.end));
    } else {
        assert(reassembled(s, lexemes, k) =~= s.subrange(0, 0));
    }
}

/// The tokens of a text that lexes, together with the whitespace and the
/// comments between them, are the text.
///
/// The lexemes lie in the text in order and without overlap; each covers
/// exactly the characters of its token (for a string or a regex: the token's
/// text inside its two delimiters); what lies before, between and behind them
/// is whitespace and line comments only; and putting gaps and lexemes together
/// again in order gives the text back.
pub proof fn lemma_tokens_tile_source(s: Seq<char>)
    requires
        lex(s) is Tokens,
    ensures
        lex(s) matches LexOutcome::Tokens(lexemes) && spans_in_order(s, lexemes)
            && gaps_are_trivia(s, lexemes) && reassemble(s, lexemes) == s,
{
    let empty = Seq::<Lexeme>::empty();
    assert(gap_start(empty, 0) == 0) by {
        reveal(gap_start);
    }
    assert(is_trivia(s, 0, 0));
    lemma_lex_from_tiles(s, 0, empty);
    if let LexOutcome::Tokens(lexemes) = lex(s) {
        lemma_reassembled_prefix(s, lexemes, lexemes.len() as int);
        let g = gap_start(lexemes, lexemes.len() as int);
        assert(s.subrange(0, g) + s.subrange(g, s.len() as int) =~= s);
    }
}

} // verus!
