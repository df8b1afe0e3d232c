//! The parser: from tokens to declarations, collecting every error.

use crate::grammar::{
    annotation_step, anonym_type_step, binary_step, declaration_step, digits_end, expect_step,
    expr_step, has_dot, int_literal, is_decimal_literal, lex_failure, next_step, number_literal,
    parse_from, parse_source, recovery_point, scan_digits, struct_fields_step,
    type_declaration_step, type_list_step, NumberError, ParseErrorView, Step,
};
use crate::lexer::{Lexer, LexerError};
use crate::lexing::{find_char, lemma_column_bound, lex};
use crate::parser_expr::{
    lemma_view_compound, view_declarations, view_expr, view_exprs, view_fields, view_type_list,
    AnonymType, BinaryExprType, Declaration, Expr, ExprView, KeyValExpr, Literal, LiteralView,
    NumberType, NumberTypeView, TypeList,
};
use crate::text::collect_chars;
use crate::tokens::{
    clone_token, token_view, tokens_view, SpecToken, Token, TokenData, TokenDataView, TokenVariant,
};
use vstd::prelude::*;
use vstd::string::*;

verus! {

/// A parse error: what was expected, and the token where it was not found.
#[derive(Debug, PartialEq, Eq)]
pub struct ParseError {
    pub message: String,
    pub location: Option<TokenData>,
}

impl View for ParseError {
    type V = ParseErrorView;

    open spec fn view(&self) -> ParseErrorView {
        ParseErrorView {
            message: self.message@,
            location: match self.location {
                Some(d) => Some(d@),
                None => None,
            },
        }
    }
}

impl Clone for ParseError {
    fn clone(&self) -> (r: Self)
        ensures
            r == *self,
    {
        ParseError {
            message: self.message.clone(),
            location: match &self.location {
                Some(d) => Some(d.clone()),
                None => None,
            },
        }
    }
}

/// The model of a sequence of parse errors.
pub open spec fn view_errors(errors: Seq<ParseError>) -> Seq<ParseErrorView> {
    errors.map_values(|e: ParseError| e@)
}

impl ParseError {
    /// An error that points at no token.
    pub fn new(message: String) -> (e: ParseError)
        ensures
            e.message == message,
            e.location is None,
    {
        ParseError { message, location: None }
    }

    /// An error that points at a copy of `loc`.
    pub fn new_with_location(message: String, loc: &TokenData) -> (e: ParseError)
        ensures
            e.message == message,
            e.location == Some(*loc),
    {
        ParseError { message, location: Some(loc.clone()) }
    }

    /// An error that points at `loc`.
    pub fn new_with_move_loc(message: String, loc: TokenData) -> (e: ParseError)
        ensures
            e.message == message,
            e.location == Some(loc),
    {
        ParseError { message, location: Some(loc) }
    }

    /// An error that points at a copy of the data of `token`.
    pub fn new_with_token(message: String, token: &Token) -> (e: ParseError)
        ensures
            e.message == message,
            e.location == Some(token.1),
    {
        ParseError { message, location: Some(token.1.clone()) }
    }

    /// The message of this error.
    pub fn describe(&self) -> (r: String)
        ensures
            r@ == self.message@,
    {
        self.message.clone()
    }

    /// The one parse error of a text that does not lex.
    pub fn from_lexer_error(error: &LexerError) -> (e: ParseError)
        ensures
            e.message@ == crate::lexer::lex_error_message(error.0),
            e.location matches Some(d) && d.v@ == Seq::<char>::empty() && d.l == error.1.line
                && d.c == error.1.column,
    {
        ParseError {
            message: String::from_str(error.0.message()),
            location: Some(TokenData { v: String::new(), l: error.1.line, c: error.1.column }),
        }
    }
}

fn err_eof() -> (e: ParseError)
    ensures
        e@ == crate::grammar::eof_error(),
{
    ParseError::new(String::from_str("Unexpected end of input"))
}

fn err_expected(kind: TokenVariant, found: &TokenData) -> (e: ParseError)
    ensures
        e@ == crate::grammar::expected_error(kind, found@),
{
    let mut message = String::from_str("Expected ");
    message.append(kind.name());
    message.append(" at ");
    found.describe_into(&mut message);
    assert(message@ =~= crate::grammar::expected_error(kind, found@).message);
    ParseError::new(message)
}

fn err_expected_type(found: &Token) -> (e: ParseError)
    ensures
        e@ == crate::grammar::expected_type_error(token_view(*found)),
{
    let mut message = String::from_str("Expected 'type' at ");
    found.1.describe_into(&mut message);
    message.append(", instead found ");
    message.append(found.0.name());
    message.append(".");
    assert(message@ =~= crate::grammar::expected_type_error(token_view(*found)).message);
    ParseError::new_with_token(message, found)
}

fn err_unexpected_token(found: &TokenData) -> (e: ParseError)
    ensures
        e@ == crate::grammar::unexpected_token_error(found@),
{
    let mut message = String::from_str("Unexpected expression token ");
    found.describe_into(&mut message);
    ParseError::new_with_location(message, found)
}

fn err_missing_left(operator: &TokenData) -> (e: ParseError)
    ensures
        e@ == crate::grammar::missing_left_error(operator@),
{
    let mut message = String::from_str("Expected expression before binary operator at ");
    operator.describe_into(&mut message);
    ParseError::new_with_location(message, operator)
}

fn err_missing_operand(operator: &TokenData) -> (e: ParseError)
    ensures
        e@ == crate::grammar::missing_operand_error(operator@),
{
    let mut message = String::from_str("Expected expression after operator at ");
    operator.describe_into(&mut message);
    ParseError::new_with_location(message, operator)
}

impl NumberError {
    /// The text of this error.
    pub fn text(&self) -> (r: &'static str)
        ensures
            r@ == crate::grammar::number_error_text(*self),
    {
        match self {
            NumberError::Empty => "cannot parse integer from empty string",
            NumberError::InvalidDigit => "invalid digit found in string",
            NumberError::PosOverflow => "number too large to fit in target type",
            NumberError::NegOverflow => "number too small to fit in target type",
            NumberError::InvalidFloat => "invalid float literal",
        }
    }
}

fn digit_value_of(c: char) -> (d: i128)
    ensures
        d == crate::grammar::digit_value(c),
        0 <= d <= 9,
{
    if c == '1' {
        1
    } else if c == '2' {
        2
    } else if c == '3' {
        3
    } else if c == '4' {
        4
    } else if c == '5' {
        5
    } else if c == '6' {
        6
    } else if c == '7' {
        7
    } else if c == '8' {
        8
    } else if c == '9' {
        9
    } else {
        0
    }
}

/// Reads the digits `chars[start..]` as a 64-bit integer, negative if
/// `negative`.
fn read_digits(chars: &Vec<char>, start: usize, negative: bool) -> (r: Result<i64, NumberError>)
    requires
        start <= chars@.len(),
    ensures
        match r {
            Ok(n) => scan_digits(chars@, start as int, 0, negative) == Ok::<int, NumberError>(
                n as int,
            ),
            Err(e) => scan_digits(chars@, start as int, 0, negative) == Err::<int, NumberError>(e),
        },
{
    let mut acc: i64 = 0;
    let mut i: usize = start;
    while i < chars.len()
        invariant
            start <= i <= chars@.len(),
            scan_digits(chars@, start as int, 0, negative) == scan_digits(
                chars@,
                i as int,
                acc as int,
                negative,
            ),
        decreases chars@.len() - i,
    {
        let c = chars[i];
        if !(c >= '0' && c <= '9') {
            return Err(NumberError::InvalidDigit);
        }
        let d: i128 = digit_value_of(c);
        let next: i128 = if negative {
            (acc as i128) * 10 - d
        } else {
            (acc as i128) * 10 + d
        };
        if next > (i64::MAX as i128) {
            return Err(NumberError::PosOverflow);
        }
        if next < (i64::MIN as i128) {
            return Err(NumberError::NegOverflow);
        }
        acc = next as i64;
        i = i + 1;
    }
    Ok(acc)
}

/// Reads `chars` as a 64-bit integer: an optional sign, then digits.
pub fn read_int(chars: &Vec<char>) -> (r: Result<i64, NumberError>)
    ensures
        match r {
            Ok(n) => int_literal(chars@) == Ok::<int, NumberError>(n as int),
            Err(e) => int_literal(chars@) == Err::<int, NumberError>(e),
        },
{
    if chars.len() == 0 {
        Err(NumberError::Empty)
    } else if chars[0] == '+' || chars[0] == '-' {
        if chars.len() == 1 {
            Err(NumberError::InvalidDigit)
        } else {
            read_digits(chars, 1, chars[0] == '-')
        }
    } else {
        read_digits(chars, 0, false)
    }
}

/// The first index at or after `start` that holds no digit.
fn skip_digits(chars: &Vec<char>, start: usize) -> (end: usize)
    requires
        start <= chars@.len(),
    ensures
        end == digits_end(chars@, start as int),
        start <= end <= chars@.len(),
{
    let mut i: usize = start;
    while i < chars.len() && chars[i] >= '0' && chars[i] <= '9'
        invariant
            start <= i <= chars@.len(),
            digits_end(chars@, start as int) == digits_end(chars@, i as int),
        decreases chars@.len() - i,
    {
        i = i + 1;
    }
    i
}

/// Whether `chars` is a decimal literal.
pub fn check_decimal(chars: &Vec<char>) -> (r: bool)
    ensures
        r == is_decimal_literal(chars@),
{
    let dot = skip_digits(chars, 0);
    if dot == 0 || dot >= chars.len() {
        return false;
    }
    if chars[dot] != '.' || dot + 1 >= chars.len() {
        return false;
    }
    skip_digits(chars, dot + 1) == chars.len()
}

/// Whether `chars` holds a dot.
pub fn contains_dot(chars: &Vec<char>) -> (r: bool)
    ensures
        r == has_dot(chars@),
{
    let mut i: usize = 0;
    while i < chars.len() && chars[i] != '.'
        invariant
            i <= chars@.len(),
            find_char(chars@, 0, '.') == find_char(chars@, i as int, '.'),
        decreases chars@.len() - i,
    {
        i = i + 1;
    }
    i < chars.len()
}

/// A parser over a token sequence, with the index of the next token to read.
pub struct Parser {
    pub tokens: Vec<Token>,
    pub current: usize,
}

impl Parser {
    /// The model of the parser's tokens.
    pub open spec fn toks(&self) -> Seq<SpecToken> {
        tokens_view(self.tokens@)
    }

    /// Whether `self` is the parser `before` after it read what `step` says:
    /// the same tokens, and the position behind what was consumed, which
    /// never lies before the old position.
    pub open spec fn advanced<T>(&self, before: &Self, step: Step<T>) -> bool {
        &&& self.tokens == before.tokens
        &&& self.current == step.pos
        &&& before.current <= self.current
        &&& self.current == before.current || self.current <= before.tokens@.len()
    }

    /// Whether `r` is the outcome of `step`, a value being compared through
    /// `view`.
    pub open spec fn outcome_is<T, V>(
        r: Result<T, ParseError>,
        step: Step<V>,
        view: spec_fn(T) -> V,
    ) -> bool {
        match r {
            Ok(value) => step.outcome == Ok::<V, ParseErrorView>(view(value)),
            Err(e) => step.outcome == Err::<V, ParseErrorView>(e@),
        }
    }

    /// A parser at the start of `tokens`.
    pub fn new(tokens: Vec<Token>) -> (parser: Self)
        ensures
            parser.tokens == tokens,
            parser.current == 0,
    {
        Parser { tokens, current: 0 }
    }

    /// Whether tokens are left to read. The token sequence carries no end
    /// marker: the position is held against its length.
    pub fn is_not_eof(&self) -> (r: bool)
        ensures
            r == (self.current < self.tokens@.len()),
    {
        self.current < self.tokens.len()
    }

    /// Takes the next token.
    pub fn next(&mut self) -> (r: Result<Token, ParseError>)
        ensures
            final(self).advanced(old(self), next_step(old(self).toks(), old(self).current as int)),
            match r {
                Ok(t) => next_step(old(self).toks(), old(self).current as int).outcome == Ok::<
                    SpecToken,
                    ParseErrorView,
                >(token_view(t)) && t == old(self).tokens@[old(self).current as int],
                Err(e) => next_step(old(self).toks(), old(self).current as int).outcome == Err::<
                    SpecToken,
                    ParseErrorView,
                >(e@),
            },
    {
        if self.current < self.tokens.len() {
            let t = clone_token(&self.tokens[self.current]);
            self.current = self.current + 1;
            Ok(t)
        } else {
            Err(err_eof())
        }
    }

    /// The next token, which stays.
    pub fn peek(&self) -> (r: Option<&Token>)
        ensures
            self.current < self.tokens@.len() ==> r == Some(&self.tokens@[self.current as int]),
            self.current >= self.tokens@.len() ==> r is None,
    {
        if self.current < self.tokens.len() {
            Some(&self.tokens[self.current])
        } else {
            None
        }
    }

    /// The kind of the next token, which stays.
    fn peek_kind(&self) -> (r: Option<TokenVariant>)
        ensures
            self.current < self.tokens@.len() ==> r == Some(self.toks()[self.current as int].0),
            self.current >= self.tokens@.len() ==> r is None,
    {
        match self.peek() {
            Some(t) => Some(t.0),
            None => None,
        }
    }

    /// Takes the next token, which must be of kind `expected`.
    pub fn expect(&mut self, expected: TokenVariant) -> (r: Result<TokenData, ParseError>)
        ensures
            final(self).advanced(
                old(self),
                expect_step(old(self).toks(), old(self).current as int, expected),
            ),
            match r {
                Ok(d) => expect_step(old(self).toks(), old(self).current as int, expected).outcome
                    == Ok::<TokenDataView, ParseErrorView>(d@),
                Err(e) => expect_step(old(self).toks(), old(self).current as int, expected).outcome
                    == Err::<TokenDataView, ParseErrorView>(e@),
            },
    {
        match self.next() {
            Ok(t) => {
                if t.0 != expected {
                    Err(err_expected(expected, &t.1))
                } else {
                    Ok(t.1)
                }
            },
            Err(e) => Err(e),
        }
    }

    /// The line that tells where the parser stands: line, column and text of
    /// the token that was read last.
    pub fn print_location(&self) -> (line: String)
        requires
            1 <= self.current <= self.tokens@.len(),
        ensures
            line@ == crate::grammar::location_line(self.toks()[self.current - 1].1),
    {
        let token = &self.tokens[self.current - 1];
        let mut line = String::new();
        crate::text::push_decimal(&mut line, token.1.l as u64);
        line.append(":");
        crate::text::push_decimal(&mut line, token.1.c as u64);
        line.append(":");
        line.append(token.1.v.as_str());
        assert(line@ =~= crate::grammar::location_line(token.1@));
        line
    }

    /// The error for a number token whose text is no number.
    pub fn err_parse_number(&self, d: &TokenData, e: NumberError) -> (error: ParseError)
        ensures
            error@ == crate::grammar::number_error(e, d@),
    {
        let mut message = String::from_str("Error parsing number: ");
        message.append(e.text());
        message.append(", at ");
        message.append(d.v.as_str());
        assert(message@ =~= crate::grammar::number_error(e, d@).message);
        ParseError::new_with_location(message, d)
    }

    /// The literal of the number token `d`.
    pub fn parse_number(&mut self, d: TokenData) -> (r: Result<Expr, ParseError>)
        ensures
            *final(self) == *old(self),
            match r {
                Ok(e) => number_literal(d@) matches Ok(n) && view_expr(e) == ExprView::Literal(
                    LiteralView::Number(n),
                ),
                Err(e) => number_literal(d@) == Err::<NumberTypeView, ParseErrorView>(e@),
            },
    {
        let chars = collect_chars(d.v.as_str());
        if contains_dot(&chars) {
            if check_decimal(&chars) {
                Ok(Expr::Literal(Literal::Number(NumberType::Float(d))))
            } else {
                Err(self.err_parse_number(&d, NumberError::InvalidFloat))
            }
        } else {
            match read_int(&chars) {
                Ok(n) => Ok(Expr::Literal(Literal::Number(NumberType::Int(n, d)))),
                Err(e) => Err(self.err_parse_number(&d, e)),
            }
        }
    }
}

impl Parser {
    /// Reads one expression against the working list `list`.
    pub fn parse_expr(&mut self, list: &mut Vec<Expr>) -> (r: Result<(), ParseError>)
        ensures
            final(self).advanced(
                old(self),
                expr_step(old(self).toks(), old(self).current as int, view_exprs(old(list)@)),
            ),
            r is Ok ==> old(self).current < final(self).current,
            match r {
                Ok(_) => expr_step(
                    old(self).toks(),
                    old(self).current as int,
                    view_exprs(old(list)@),
                ).outcome == Ok::<Seq<ExprView>, ParseErrorView>(view_exprs(final(list)@)),
                Err(e) => expr_step(
                    old(self).toks(),
                    old(self).current as int,
                    view_exprs(old(list)@),
                ).outcome == Err::<Seq<ExprView>, ParseErrorView>(e@),
            },
        decreases old(self).tokens@.len() - old(self).current, 0int,
    {
        let ghost toks = self.toks();
        let ghost pos = self.current as int;
        let ghost stack = view_exprs(list@);
        let (variant, loc) = match self.next() {
            Ok(t) => t,
            Err(e) => {
                return Err(e);
            },
        };
        let res: Expr = match variant {
            TokenVariant::Identifier => Expr::Identifier(loc),
            TokenVariant::Dollar => match self.expect(TokenVariant::Identifier) {
                Ok(d) => Expr::FieldAccess(d),
                Err(e) => {
                    return Err(e);
                },
            },
            TokenVariant::Number => match self.parse_number(loc) {
                Ok(e) => e,
                Err(e) => {
                    return Err(e);
                },
            },
            TokenVariant::True => Expr::Literal(Literal::Boolean(true, loc)),
            TokenVariant::False => Expr::Literal(Literal::Boolean(false, loc)),
            TokenVariant::String => Expr::Literal(Literal::String(loc.v.clone(), loc)),
            TokenVariant::Regex => Expr::Regex(loc),
            TokenVariant::LBracket => {
                let items = match self.parse_list() {
                    Ok(items) => items,
                    Err(e) => {
                        return Err(e);
                    },
                };
                match self.expect(TokenVariant::RBracket) {
                    Ok(_) => {},
                    Err(e) => {
                        return Err(e);
                    },
                }
                let e = Expr::List(items);
                proof {
                    lemma_view_compound(e);
                }
                e
            },
            TokenVariant::SetKw => {
                match self.expect(TokenVariant::LBracket) {
                    Ok(_) => {},
                    Err(e) => {
                        return Err(e);
                    },
                }
                let items = match self.parse_list() {
                    Ok(items) => items,
                    Err(e) => {
                        return Err(e);
                    },
                };
                match self.expect(TokenVariant::RBracket) {
                    Ok(_) => {},
                    Err(e) => {
                        return Err(e);
                    },
                }
                let e = Expr::SetOf(items);
                proof {
                    lemma_view_compound(e);
                }
                e
            },
            TokenVariant::LCurly => {
                let fields = match self.parse_struct() {
                    Ok(fields) => fields,
                    Err(e) => {
                        return Err(e);
                    },
                };
                let e = Expr::Struct(fields);
                proof {
                    lemma_view_compound(e);
                }
                e
            },
            TokenVariant::Enum => {
                match self.expect(TokenVariant::LCurly) {
                    Ok(_) => {},
                    Err(e) => {
                        return Err(e);
                    },
                }
                let fields = match self.parse_struct() {
                    Ok(fields) => fields,
                    Err(e) => {
                        return Err(e);
                    },
                };
                let e = Expr::Enum(fields);
                proof {
                    lemma_view_compound(e);
                }
                e
            },
            TokenVariant::At => match self.parse_annotation() {
                Ok(e) => e,
                Err(e) => {
                    return Err(e);
                },
            },
            TokenVariant::Not => {
                match self.parse_expr(list) {
                    Ok(_) => {},
                    Err(e) => {
                        return Err(e);
                    },
                }
                let ghost operands = list@;
                match list.pop() {
                    Some(operand) => {
                        assert(view_exprs(list@) =~= view_exprs(operands).drop_last());
                        Expr::Not(Box::new(operand))
                    },
                    None => {
                        return Err(err_missing_operand(&loc));
                    },
                }
            },
            TokenVariant::Or => {
                if list.len() == 0 {
                    return Ok(());
                }
                match self.parse_binary(BinaryExprType::Or, &loc, list) {
                    Ok(e) => e,
                    Err(e) => {
                        return Err(e);
                    },
                }
            },
            TokenVariant::And => match self.parse_binary(BinaryExprType::Union, &loc, list) {
                Ok(e) => e,
                Err(e) => {
                    return Err(e);
                },
            },
            TokenVariant::Asterix => match self.parse_binary(
                BinaryExprType::Intersection,
                &loc,
                list,
            ) {
                Ok(e) => e,
                Err(e) => {
                    return Err(e);
                },
            },
            TokenVariant::Caret => match self.parse_binary(BinaryExprType::Xor, &loc, list) {
                Ok(e) => e,
                Err(e) => {
                    return Err(e);
                },
            },
            TokenVariant::Backslash => match self.parse_binary(
                BinaryExprType::Difference,
                &loc,
                list,
            ) {
                Ok(e) => e,
                Err(e) => {
                    return Err(e);
                },
            },
            TokenVariant::Range => match self.parse_binary(BinaryExprType::Range, &loc, list) {
                Ok(e) => e,
                Err(e) => {
                    return Err(e);
                },
            },
            TokenVariant::Plus => match self.parse_binary(BinaryExprType::Add, &loc, list) {
                Ok(e) => e,
                Err(e) => {
                    return Err(e);
                },
            },
            TokenVariant::Minus => match self.parse_binary(BinaryExprType::Remove, &loc, list) {
                Ok(e) => e,
                Err(e) => {
                    return Err(e);
                },
            },
            TokenVariant::SymmDiff => match self.parse_binary(
                BinaryExprType::SymmetricDifference,
                &loc,
                list,
            ) {
                Ok(e) => e,
                Err(e) => {
                    return Err(e);
                },
            },
            _ => {
                return Err(err_unexpected_token(&loc));
            },
        };
        proof {
            assert(view_exprs(list@.push(res)) =~= view_exprs(list@).push(view_expr(res)));
        }
        list.push(res);
        Ok(())
    }

    /// Reduces the binary operator `t`, whose token `loc` was just read:
    /// takes the left operand off `list`, reads the right one, and returns
    /// the two combined.
    pub fn parse_binary(&mut self, t: BinaryExprType, loc: &TokenData, list: &mut Vec<Expr>) -> (r:
        Result<Expr, ParseError>)
        ensures
            final(self).advanced(
                old(self),
                binary_step(
                    old(self).toks(),
                    old(self).current as int,
                    t,
                    loc@,
                    view_exprs(old(list)@),
                ),
            ),
            r is Ok ==> old(self).current < final(self).current,
            match r {
                Ok(e) => binary_step(
                    old(self).toks(),
                    old(self).current as int,
                    t,
                    loc@,
                    view_exprs(old(list)@),
                ).outcome == Ok::<Seq<ExprView>, ParseErrorView>(
                    view_exprs(final(list)@).push(view_expr(e)),
                ),
                Err(e) => binary_step(
                    old(self).toks(),
                    old(self).current as int,
                    t,
                    loc@,
                    view_exprs(old(list)@),
                ).outcome == Err::<Seq<ExprView>, ParseErrorView>(e@),
            },
        decreases old(self).tokens@.len() - old(self).current, 1int,
    {
        let ghost stack = list@;
        let prev = match list.pop() {
            Some(prev) => prev,
            None => {
                return Err(err_missing_left(loc));
            },
        };
        assert(view_exprs(list@) =~= view_exprs(stack).drop_last());
        match self.parse_expr(list) {
            Ok(_) => {},
            Err(e) => {
                return Err(e);
            },
        }
        let ghost operands = list@;
        match list.pop() {
            Some(right) => {
                assert(view_exprs(list@) =~= view_exprs(operands).drop_last());
                Ok(Expr::BinaryExpr(t, Box::new((prev, right))))
            },
            None => Err(err_missing_operand(loc)),
        }
    }

    /// Reads a type body: expressions up to a terminator or the end of the
    /// tokens.
    #[verifier::loop_isolation(false)]
    pub fn parse_anonym_type(&mut self) -> (r: Result<AnonymType, ParseError>)
        ensures
            final(self).advanced(
                old(self),
                anonym_type_step(old(self).toks(), old(self).current as int, Seq::empty()),
            ),
            r is Ok ==> old(self).current < final(self).current,
            Self::outcome_is(
                r,
                anonym_type_step(old(self).toks(), old(self).current as int, Seq::empty()),
                |list: AnonymType| view_exprs(list@),
            ),
        decreases old(self).tokens@.len() - old(self).current, 1int,
    {
        let mut list: Vec<Expr> = Vec::new();
        let ghost toks = self.toks();
        let ghost start = self.current as int;
        assert(view_exprs(list@) =~= Seq::empty());
        loop
            invariant
                self.tokens == old(self).tokens,
                start <= self.current,
                self.current == start || self.current <= old(self).tokens@.len(),
                list@.len() > 0 ==> start < self.current,
                anonym_type_step(toks, start, Seq::empty()) == anonym_type_step(
                    toks,
                    self.current as int,
                    view_exprs(list@),
                ),
            decreases old(self).tokens@.len() - self.current,
        {
            match self.parse_expr(&mut list) {
                Ok(_) => {},
                Err(e) => {
                    return Err(e);
                },
            }
            let variant = match self.peek_kind() {
                Some(kind) => kind,
                None => {
                    return Ok(list);
                },
            };
            if variant == TokenVariant::Comma || variant == TokenVariant::RBracket || variant
                == TokenVariant::RCurly || variant == TokenVariant::RParen || variant
                == TokenVariant::Semicolon {
                if variant == TokenVariant::Comma {
                    let _ = self.next();
                }
                return Ok(list);
            }
        }
    }

    /// Reads type bodies up to a closing bracket, a closing parenthesis or a
    /// semicolon.
    #[verifier::loop_isolation(false)]
    pub fn parse_list(&mut self) -> (r: Result<TypeList, ParseError>)
        ensures
            final(self).advanced(
                old(self),
                type_list_step(old(self).toks(), old(self).current as int, Seq::empty()),
            ),
            Self::outcome_is(
                r,
                type_list_step(old(self).toks(), old(self).current as int, Seq::empty()),
                |list: TypeList| view_type_list(list@),
            ),
        decreases old(self).tokens@.len() - old(self).current, 2int,
    {
        let mut list: Vec<AnonymType> = Vec::new();
        let ghost toks = self.toks();
        let ghost start = self.current as int;
        assert(view_type_list(list@) =~= Seq::empty());
        loop
            invariant
                self.tokens == old(self).tokens,
                start <= self.current,
                self.current == start || self.current <= old(self).tokens@.len(),
                type_list_step(toks, start, Seq::empty()) == type_list_step(
                    toks,
                    self.current as int,
                    view_type_list(list@),
                ),
            decreases old(self).tokens@.len() - self.current,
        {
            let stop = match self.peek_kind() {
                Some(kind) => kind == TokenVariant::RBracket || kind == TokenVariant::RParen || kind
                    == TokenVariant::Semicolon,
                None => false,
            };
            if stop {
                return Ok(list);
            }
            match self.parse_anonym_type() {
                Ok(body) => {
                    assert(view_type_list(list@.push(body)) =~= view_type_list(list@).push(
                        view_exprs(body@),
                    ));
                    list.push(body);
                },
                Err(e) => {
                    return Err(e);
                },
            }
        }
    }

    /// Reads the fields of a struct or an enum, up to and including the
    /// closing brace.
    #[verifier::loop_isolation(false)]
    pub fn parse_struct(&mut self) -> (r: Result<Vec<KeyValExpr>, ParseError>)
        ensures
            final(self).advanced(
                old(self),
                struct_fields_step(old(self).toks(), old(self).current as int, Seq::empty()),
            ),
            r is Ok ==> old(self).current < final(self).current,
            Self::outcome_is(
                r,
                struct_fields_step(old(self).toks(), old(self).current as int, Seq::empty()),
                |fields: Vec<KeyValExpr>| view_fields(fields@),
            ),
        decreases old(self).tokens@.len() - old(self).current, 2int,
    {
        let mut fields: Vec<KeyValExpr> = Vec::new();
        let ghost toks = self.toks();
        let ghost start = self.current as int;
        assert(view_fields(fields@) =~= Seq::empty());
        loop
            invariant
                self.tokens == old(self).tokens,
                start <= self.current,
                self.current == start || self.current <= old(self).tokens@.len(),
                struct_fields_step(toks, start, Seq::empty()) == struct_fields_step(
                    toks,
                    self.current as int,
                    view_fields(fields@),
                ),
            decreases old(self).tokens@.len() - self.current,
        {
            if self.peek_kind() == Some(TokenVariant::RCurly) {
                let _ = self.next();
                return Ok(fields);
            }
            let d = match self.expect(TokenVariant::Identifier) {
                Ok(d) => d,
                Err(e) => {
                    return Err(e);
                },
            };
            match self.expect(TokenVariant::Colon) {
                Ok(_) => {},
                Err(e) => {
                    return Err(e);
                },
            }
            match self.parse_anonym_type() {
                Ok(body) => {
                    assert(view_fields(fields@.push((d, body))) =~= view_fields(fields@).push(
                        (d@, view_exprs(body@)),
                    ));
                    fields.push((d, body));
                },
                Err(e) => {
                    return Err(e);
                },
            }
        }
    }

    /// Reads an annotation behind its `@`.
    pub fn parse_annotation(&mut self) -> (r: Result<Expr, ParseError>)
        ensures
            final(self).advanced(
                old(self),
                annotation_step(old(self).toks(), old(self).current as int),
            ),
            r is Ok ==> old(self).current < final(self).current,
            Self::outcome_is(
                r,
                annotation_step(old(self).toks(), old(self).current as int),
                |e: Expr| view_expr(e),
            ),
        decreases old(self).tokens@.len() - old(self).current, 3int,
    {
        let id = match self.expect(TokenVariant::Identifier) {
            Ok(id) => id,
            Err(e) => {
                return Err(e);
            },
        };
        let has_args = self.peek_kind() == Some(TokenVariant::LParen);
        if !has_args {
            let e = Expr::Annotation(id, Vec::new());
            proof {
                lemma_view_compound(e);
                assert(view_type_list(Seq::<Vec<Expr>>::empty()) =~= Seq::empty());
            }
            return Ok(e);
        }
        let _ = self.next();
        let args = match self.parse_list() {
            Ok(args) => args,
            Err(e) => {
                return Err(e);
            },
        };
        match self.expect(TokenVariant::RParen) {
            Ok(_) => {},
            Err(e) => {
                return Err(e);
            },
        }
        let e = Expr::Annotation(id, args);
        proof {
            lemma_view_compound(e);
        }
        Ok(e)
    }

    /// Reads the name, the `=` and the body of a type declaration.
    pub fn parse_type_declaration(&mut self) -> (r: Result<Declaration, ParseError>)
        ensures
            final(self).advanced(
                old(self),
                type_declaration_step(old(self).toks(), old(self).current as int),
            ),
            r is Ok ==> old(self).current < final(self).current,
            Self::outcome_is(
                r,
                type_declaration_step(old(self).toks(), old(self).current as int),
                |d: Declaration| d@,
            ),
    {
        let name = match self.expect(TokenVariant::Identifier) {
            Ok(name) => name,
            Err(e) => {
                return Err(e);
            },
        };
        match self.expect(TokenVariant::Eq) {
            Ok(_) => {},
            Err(e) => {
                return Err(e);
            },
        }
        match self.parse_anonym_type() {
            Ok(t) => Ok(Declaration::TypeDecl { name, t }),
            Err(e) => Err(e),
        }
    }

    /// Reads one declaration: `type`, a name, `=`, a body and `;`.
    pub fn parse_declaration(&mut self) -> (r: Result<Declaration, ParseError>)
        ensures
            final(self).advanced(
                old(self),
                declaration_step(old(self).toks(), old(self).current as int),
            ),
            old(self).current < old(self).tokens@.len() ==> old(self).current < final(self).current,
            Self::outcome_is(
                r,
                declaration_step(old(self).toks(), old(self).current as int),
                |d: Declaration| d@,
            ),
    {
        let token = match self.next() {
            Ok(t) => t,
            Err(e) => {
                return Err(e);
            },
        };
        if token.0 != TokenVariant::Type {
            return Err(err_expected_type(&token));
        }
        let dec = match self.parse_type_declaration() {
            Ok(dec) => dec,
            Err(e) => {
                return Err(e);
            },
        };
        match self.expect(TokenVariant::Semicolon) {
            Ok(_) => Ok(dec),
            Err(e) => Err(e),
        }
    }

    /// Skips to where parsing resumes after a failed declaration: to the
    /// next `type` keyword, behind the next `;`, or to the end of the tokens.
    pub fn recover_to_declaration_boundary(&mut self)
        ensures
            final(self).tokens == old(self).tokens,
            final(self).current == recovery_point(old(self).toks(), old(self).current as int),
            old(self).current <= final(self).current,
            final(self).current == old(self).current || final(self).current <= old(self).tokens@.len(),
    {
        let ghost toks = self.toks();
        let ghost start = self.current as int;
        while self.is_not_eof()
            invariant_except_break
                recovery_point(toks, start) == recovery_point(toks, self.current as int),
            invariant
                self.tokens == old(self).tokens,
                toks == old(self).toks(),
                start == old(self).current,
                start <= self.current,
                self.current == start || self.current <= old(self).tokens@.len(),
            ensures
                self.current == recovery_point(toks, start),
            decreases old(self).tokens@.len() - self.current,
        {
            let kind = match self.peek_kind() {
                Some(kind) => kind,
                None => {
                    break ;
                },
            };
            if kind == TokenVariant::Type {
                break ;
            }
            let _ = self.next();
            if kind == TokenVariant::Semicolon {
                break ;
            }
        }
    }

    /// Parses the tokens from the current position to their end.
    ///
    /// Returns every declaration that parsed and every error that was found,
    /// each in source order.
    pub fn parse(&mut self) -> (r: (Vec<Declaration>, Vec<ParseError>))
        ensures
            final(self).tokens == old(self).tokens,
            (view_declarations(r.0@), view_errors(r.1@)) == parse_from(
                old(self).toks(),
                old(self).current as int,
                Seq::empty(),
                Seq::empty(),
            ),
    {
        let mut ast: Vec<Declaration> = Vec::new();
        let mut errors: Vec<ParseError> = Vec::new();
        let ghost toks = self.toks();
        let ghost start = self.current as int;
        assert(view_declarations(ast@) =~= Seq::empty());
        assert(view_errors(errors@) =~= Seq::empty());
        while self.is_not_eof()
            invariant
                self.tokens == old(self).tokens,
                toks == old(self).toks(),
                start == old(self).current,
                parse_from(toks, start, Seq::empty(), Seq::empty()) == parse_from(
                    toks,
                    self.current as int,
                    view_declarations(ast@),
                    view_errors(errors@),
                ),
            decreases old(self).tokens@.len() - self.current,
        {
            match self.parse_declaration() {
                Ok(decl) => {
                    assert(view_declarations(ast@.push(decl)) =~= view_declarations(ast@).push(
                        decl@,
                    ));
                    ast.push(decl);
                },
                Err(err) => {
                    assert(view_errors(errors@.push(err)) =~= view_errors(errors@).push(err@));
                    errors.push(err);
                    self.recover_to_declaration_boundary();
                },
            }
        }
        (ast, errors)
    }
}

/// Lexes and parses `src`.
///
/// Returns the declarations, the errors and the tokens. A text that does not
/// lex gives no declarations and no tokens, and the lexer's error as its one
/// error.
pub fn parse(src: &str) -> (r: (Vec<Declaration>, Vec<ParseError>, Vec<Token>))
    ensures
        view_declarations(r.0@) == parse_source(src@).declarations,
        view_errors(r.1@) == parse_source(src@).errors,
        tokens_view(r.2@) == parse_source(src@).tokens,
{
    let mut lexer = Lexer::new(src);
    let tokens = match lexer.tokenize() {
        Ok(t) => t,
        Err(e) => {
            let error = ParseError::from_lexer_error(&e);
            let mut errors: Vec<ParseError> = Vec::new();
            errors.push(error);
            let ast: Vec<Declaration> = Vec::new();
            let tokens: Vec<Token> = Vec::new();
            proof {
                let at = lex(src@)->Failed_at;
                crate::lexing::lemma_lex_failure_bounds(src@, 0, Seq::empty());
                lemma_column_bound(src@, at);
                assert(view_errors(errors@) =~= seq![lex_failure(e.0, src@, at)]);
                assert(view_declarations(ast@) =~= Seq::empty());
                assert(tokens_view(tokens@) =~= Seq::empty());
            }
            return (ast, errors, tokens);
        },
    };
    let mut parser = Parser::new(tokens);
    let (ast, errors) = parser.parse();
    let Parser { tokens, current: _ } = parser;
    (ast, errors, tokens)
}

} // verus!
