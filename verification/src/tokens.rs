//! Tokens: the kinds the lexer produces and the text and position each carries.

use crate::text::push_decimal;
use vstd::prelude::*;
use vstd::string::*;

verus! {

/// The kind of a token.
#[derive(Debug, Clone, Copy, PartialEq, Eq, Hash, Structural)]
pub enum TokenVariant {
    Identifier,
    Type,
    SetKw,
    Enum,
    True,
    False,
    Number,
    String,
    Regex,
    Not,
    Or,
    And,
    Dot,
    Comma,
    Colon,
    Semicolon,
    Plus,
    Minus,
    Backslash,
    Dollar,
    Asterix,
    Caret,
    At,
    Eq,
    Neq,
    SymmDiff,
    Range,
    Gt,
    Lt,
    LParen,
    RParen,
    LCurly,
    RCurly,
    LBracket,
    RBracket,
}

/// The text of a token and the 1-based line and column where it starts.
///
/// For string and regex tokens `v` is the text between the delimiters; for
/// every other kind it is the matched characters themselves.
#[derive(Debug, PartialEq, Eq, Hash)]
pub struct TokenData {
    pub v: String,
    pub l: usize,
    pub c: usize,
}

/// A token: its kind and its data.
pub type Token = (TokenVariant, TokenData);

/// Mathematical model of a [`TokenData`].
pub struct TokenDataView {
    pub v: Seq<char>,
    pub l: nat,
    pub c: nat,
}

/// Mathematical model of a [`Token`].
pub type SpecToken = (TokenVariant, TokenDataView);

impl View for TokenData {
    type V = TokenDataView;

    open spec fn view(&self) -> TokenDataView {
        TokenDataView { v: self.v@, l: self.l as nat, c: self.c as nat }
    }
}

impl Clone for TokenData {
    fn clone(&self) -> (r: Self)
        ensures
            r == *self,
    {
        TokenData { v: self.v.clone(), l: self.l, c: self.c }
    }
}

/// The model of one token.
pub open spec fn token_view(t: Token) -> SpecToken {
    (t.0, t.1@)
}

/// The model of a token sequence.
pub open spec fn tokens_view(tokens: Seq<Token>) -> Seq<SpecToken> {
    tokens.map_values(|t: Token| token_view(t))
}

/// A copy of `t`.
pub fn clone_token(t: &Token) -> (r: Token)
    ensures
        r == *t,
{
    (t.0, t.1.clone())
}

/// The display name of a token kind.
pub open spec fn variant_name(kind: TokenVariant) -> Seq<char> {
    match kind {
        TokenVariant::Identifier => "Identifier"@,
        TokenVariant::Type => "Type"@,
        TokenVariant::SetKw => "Set"@,
        TokenVariant::Enum => "Enum"@,
        TokenVariant::True => "True"@,
        TokenVariant::False => "False"@,
        TokenVariant::Number => "Number"@,
        TokenVariant::String => "String"@,
        TokenVariant::Regex => "Regex"@,
        TokenVariant::Not => "Not"@,
        TokenVariant::Or => "Or"@,
        TokenVariant::And => "And"@,
        TokenVariant::Dot => "Dot"@,
        TokenVariant::Comma => "Comma"@,
        TokenVariant::Colon => "Colon"@,
        TokenVariant::Semicolon => "Semicolon"@,
        TokenVariant::Plus => "Plus"@,
        TokenVariant::Minus => "Minus"@,
        TokenVariant::Backslash => "Backslash"@,
        TokenVariant::Dollar => "Dollar"@,
        TokenVariant::Asterix => "Asterix"@,
        TokenVariant::Caret => "Caret"@,
        TokenVariant::At => "At"@,
        TokenVariant::Eq => "Eq"@,
        TokenVariant::Neq => "Neq"@,
        TokenVariant::SymmDiff => "SymmDiff"@,
        TokenVariant::Range => "Range"@,
        TokenVariant::Gt => "Gt"@,
        TokenVariant::Lt => "Lt"@,
        TokenVariant::LParen => "LParen"@,
        TokenVariant::RParen => "RParen"@,
        TokenVariant::LCurly => "LCurly"@,
        TokenVariant::RCurly => "RCurly"@,
        TokenVariant::LBracket => "LBracket"@,
        TokenVariant::RBracket => "RBracket"@,
    }
}

/// How a token's data reads in a message: the text in double quotes, then the
/// line and the column.
pub open spec fn describe_token(d: TokenDataView) -> Seq<char> {
    "\""@ + d.v + "\" on line:"@ + decimal_of(d.l) + " column:"@ + decimal_of(d.c)
}

/// The decimal rendering of `n`.
pub open spec fn decimal_of(n: nat) -> Seq<char> {
    crate::text::decimal(n)
}

impl TokenVariant {
    /// The display name of this kind.
    pub fn name(&self) -> (r: &'static str)
        ensures
            r@ == variant_name(*self),
    {
        match self {
            TokenVariant::Identifier => "Identifier",
            TokenVariant::Type => "Type",
            TokenVariant::SetKw => "Set",
            TokenVariant::Enum => "Enum",
            TokenVariant::True => "True",
            TokenVariant::False => "False",
            TokenVariant::Number => "Number",
            TokenVariant::String => "String",
            TokenVariant::Regex => "Regex",
            TokenVariant::Not => "Not",
            TokenVariant::Or => "Or",
            TokenVariant::And => "And",
            TokenVariant::Dot => "Dot",
            TokenVariant::Comma => "Comma",
            TokenVariant::Colon => "Colon",
            TokenVariant::Semicolon => "Semicolon",
            TokenVariant::Plus => "Plus",
            TokenVariant::Minus => "Minus",
            TokenVariant::Backslash => "Backslash",
            TokenVariant::Dollar => "Dollar",
            TokenVariant::Asterix => "Asterix",
            TokenVariant::Caret => "Caret",
            TokenVariant::At => "At",
            TokenVariant::Eq => "Eq",
            TokenVariant::Neq => "Neq",
            TokenVariant::SymmDiff => "SymmDiff",
            TokenVariant::Range => "Range",
            TokenVariant::Gt => "Gt",
            TokenVariant::Lt => "Lt",
            TokenVariant::LParen => "LParen",
            TokenVariant::RParen => "RParen",
            TokenVariant::LCurly => "LCurly",
            TokenVariant::RCurly => "RCurly",
            TokenVariant::LBracket => "LBracket",
            TokenVariant::RBracket => "RBracket",
        }
    }
}

impl TokenData {
    /// Appends [`describe_token`] of this data to `out`.
    pub fn describe_into(&self, out: &mut String)
        ensures
            final(out)@ == old(out)@ + describe_token(self@),
    {
        out.append("\"");
        out.append(self.v.as_str());
        out.append("\" on line:");
        push_decimal(out, self.l as u64);
        out.append(" column:");
        push_decimal(out, self.c as u64);
        assert(out@ =~= old(out)@ + describe_token(self@));
    }

    /// This data as it reads in a message.
    pub fn describe(&self) -> (r: String)
        ensures
            r@ == describe_token(self@),
    {
        let mut out = String::new();
        self.describe_into(&mut out);
        assert(out@ =~= describe_token(self@));
        out
    }
}

} // verus!
