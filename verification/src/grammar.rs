//! The grammar of the language, as functions of a token sequence.
//!
//! Every function here says what the parser reads at a position of the token
//! sequence: the value or the error, and the position behind what was
//! consumed. The executable parser is proved against them.
//!
//! A definition that reads again behind something it has read first tests
//! that the position moved forward, which makes it well-founded. The laws in
//! `grammar_laws` show that these tests never fail.

use crate::lexer::{lex_error_message, LexError};
use crate::lexing::{column_of, find_char, is_digit, lex, lexeme_tokens, line_of, LexOutcome};
use crate::parser_expr::{BinaryExprType, DeclarationView, ExprView, LiteralView, NumberTypeView};
use crate::tokens::{describe_token, variant_name, SpecToken, TokenDataView, TokenVariant};
use vstd::prelude::*;

verus! {

/// Mathematical model of a parse error: the message, and the token that it
/// points at, if any.
pub struct ParseErrorView {
    pub message: Seq<char>,
    pub location: Option<TokenDataView>,
}

/// What the parser reads at a position: a value or an error, and the position
/// behind the tokens that it consumed.
pub struct Step<T> {
    pub outcome: Result<T, ParseErrorView>,
    pub pos: int,
}

/// The step that read `value` and stands at `pos`.
pub open spec fn ok<T>(value: T, pos: int) -> Step<T> {
    Step { outcome: Ok(value), pos }
}

/// The step that failed with `error` and stands at `pos`.
pub open spec fn fail<T>(error: ParseErrorView, pos: int) -> Step<T> {
    Step { outcome: Err(error), pos }
}

/// Why the text of a number token is no number.
#[derive(Debug, Clone, Copy, PartialEq, Eq, Hash, Structural)]
pub enum NumberError {
    Empty,
    InvalidDigit,
    PosOverflow,
    NegOverflow,
    InvalidFloat,
}

/// The text of a number error.
pub open spec fn number_error_text(e: NumberError) -> Seq<char> {
    match e {
        NumberError::Empty => "cannot parse integer from empty string"@,
        NumberError::InvalidDigit => "invalid digit found in string"@,
        NumberError::PosOverflow => "number too large to fit in target type"@,
        NumberError::NegOverflow => "number too small to fit in target type"@,
        NumberError::InvalidFloat => "invalid float literal"@,
    }
}

/// The error for a token that is missing at the end of the input.
pub open spec fn eof_error() -> ParseErrorView {
    ParseErrorView { message: "Unexpected end of input"@, location: None }
}

/// The error for the token `found` where one of kind `kind` was expected.
pub open spec fn expected_error(kind: TokenVariant, found: TokenDataView) -> ParseErrorView {
    ParseErrorView {
        message: "Expected "@ + variant_name(kind) + " at "@ + describe_token(found),
        location: None,
    }
}

/// The error for the token `found` where a declaration must start.
pub open spec fn expected_type_error(found: SpecToken) -> ParseErrorView {
    ParseErrorView {
        message: "Expected 'type' at "@ + describe_token(found.1) + ", instead found "@
            + variant_name(found.0) + "."@,
        location: Some(found.1),
    }
}

/// The error for the token `found` that starts no expression.
pub open spec fn unexpected_token_error(found: TokenDataView) -> ParseErrorView {
    ParseErrorView {
        message: "Unexpected expression token "@ + describe_token(found),
        location: Some(found),
    }
}

/// The error for a binary operator without an expression before it.
pub open spec fn missing_left_error(operator: TokenDataView) -> ParseErrorView {
    ParseErrorView {
        message: "Expected expression before binary operator at "@ + describe_token(operator),
        location: Some(operator),
    }
}

/// The error for an operator without an expression behind it.
pub open spec fn missing_operand_error(operator: TokenDataView) -> ParseErrorView {
    ParseErrorView {
        message: "Expected expression after operator at "@ + describe_token(operator),
        location: Some(operator),
    }
}

/// The error for the number token `token` whose text is no number.
pub open spec fn number_error(e: NumberError, token: TokenDataView) -> ParseErrorView {
    ParseErrorView {
        message: "Error parsing number: "@ + number_error_text(e) + ", at "@ + token.v,
        location: Some(token),
    }
}

/// How the place of a token reads on a line of its own: line, column, text.
pub open spec fn location_line(token: TokenDataView) -> Seq<char> {
    crate::text::decimal(token.l) + ":"@ + crate::text::decimal(token.c) + ":"@ + token.v
}

/// The value of a decimal digit.
pub open spec fn digit_value(c: char) -> int {
    if c == '1' {
        1
    } else if c == '2' {
        2
    } else if c == '3' {
        3
    } else if c == '4' {
        4
    } else if c == '5' {
        5
    } else if c == '6' {
        6
    } else if c == '7' {
        7
    } else if c == '8' {
        8
    } else if c == '9' {
        9
    } else {
        0
    }
}

/// Reads the digits `digits[i..]` behind the value `acc` of those before
/// them, towards a negative value after a minus sign. The first character
/// that is no digit, or with which the value leaves the 64-bit range, decides
/// the error.
pub open spec fn scan_digits(digits: Seq<char>, i: int, acc: int, negative: bool) -> Result<
    int,
    NumberError,
>
    decreases digits.len() - i,
{
    if i < 0 || i >= digits.len() {
        Ok(acc)
    } else if !is_digit(digits[i]) {
        Err(NumberError::InvalidDigit)
    } else {
        let next = if negative {
            acc * 10 - digit_value(digits[i])
        } else {
            acc * 10 + digit_value(digits[i])
        };
        if next > i64::MAX {
            Err(NumberError::PosOverflow)
        } else if next < i64::MIN {
            Err(NumberError::NegOverflow)
        } else {
            scan_digits(digits, i + 1, next, negative)
        }
    }
}

/// The value of an integer literal: an optional sign and at least one digit,
/// within the 64-bit range.
pub open spec fn int_literal(text: Seq<char>) -> Result<int, NumberError> {
    if text.len() == 0 {
        Err(NumberError::Empty)
    } else if text[0] == '+' || text[0] == '-' {
        if text.len() == 1 {
            Err(NumberError::InvalidDigit)
        } else {
            scan_digits(text, 1, 0, text[0] == '-')
        }
    } else {
        scan_digits(text, 0, 0, false)
    }
}

/// The first index at or after `i` that holds no digit.
pub open spec fn digits_end(s: Seq<char>, i: int) -> int
    decreases s.len() - i,
{
    if 0 <= i < s.len() && is_digit(s[i]) {
        digits_end(s, i + 1)
    } else {
        i
    }
}

/// Whether `text` is a decimal literal: digits, a dot, digits, with at least
/// one digit on either side.
pub open spec fn is_decimal_literal(text: Seq<char>) -> bool {
    let dot = digits_end(text, 0);
    &&& 0 < dot < text.len()
    &&& text[dot] == '.'
    &&& dot + 1 < text.len()
    &&& digits_end(text, dot + 1) == text.len()
}

/// Whether `text` holds a dot.
pub open spec fn has_dot(text: Seq<char>) -> bool {
    find_char(text, 0, '.') < text.len()
}

/// The literal of a number token: a decimal if its text holds a dot, an
/// integer otherwise.
pub open spec fn number_literal(token: TokenDataView) -> Result<NumberTypeView, ParseErrorView> {
    if has_dot(token.v) {
        if is_decimal_literal(token.v) {
            Ok(NumberTypeView::Float(token))
        } else {
            Err(number_error(NumberError::InvalidFloat, token))
        }
    } else {
        match int_literal(token.v) {
            Ok(n) => Ok(NumberTypeView::Int(n as i64, token)),
            Err(e) => Err(number_error(e, token)),
        }
    }
}

/// The operator that a token kind stands for, if it is a binary operator.
pub open spec fn binary_operator(kind: TokenVariant) -> Option<BinaryExprType> {
    match kind {
        TokenVariant::Or => Some(BinaryExprType::Or),
        TokenVariant::And => Some(BinaryExprType::Union),
        TokenVariant::Asterix => Some(BinaryExprType::Intersection),
        TokenVariant::Caret => Some(BinaryExprType::Xor),
        TokenVariant::Backslash => Some(BinaryExprType::Difference),
        TokenVariant::Range => Some(BinaryExprType::Range),
        TokenVariant::Plus => Some(BinaryExprType::Add),
        TokenVariant::Minus => Some(BinaryExprType::Remove),
        TokenVariant::SymmDiff => Some(BinaryExprType::SymmetricDifference),
        _ => None,
    }
}

/// Whether a token of this kind ends a type body.
pub open spec fn is_terminator(kind: TokenVariant) -> bool {
    kind == TokenVariant::Comma || kind == TokenVariant::RBracket || kind == TokenVariant::RCurly
        || kind == TokenVariant::RParen || kind == TokenVariant::Semicolon
}

/// Whether a token of this kind ends a type list.
pub open spec fn ends_list(kind: TokenVariant) -> bool {
    kind == TokenVariant::RBracket || kind == TokenVariant::RParen || kind
        == TokenVariant::Semicolon
}

/// Takes the token at `pos`.
pub open spec fn next_step(toks: Seq<SpecToken>, pos: int) -> Step<SpecToken> {
    if 0 <= pos < toks.len() {
        ok(toks[pos], pos + 1)
    } else {
        fail(eof_error(), pos)
    }
}

/// Takes the token at `pos`, which must be of kind `kind`. A token of
/// another kind is consumed all the same.
pub open spec fn expect_step(toks: Seq<SpecToken>, pos: int, kind: TokenVariant) -> Step<
    TokenDataView,
> {
    if 0 <= pos < toks.len() {
        if toks[pos].0 == kind {
            ok(toks[pos].1, pos + 1)
        } else {
            fail(expected_error(kind, toks[pos].1), pos + 1)
        }
    } else {
        fail(eof_error(), pos)
    }
}

/// After `step`, takes a token of kind `kind` and keeps the value of `step`.
pub open spec fn then_expect<T>(step: Step<T>, toks: Seq<SpecToken>, kind: TokenVariant) -> Step<
    T,
> {
    match step.outcome {
        Ok(value) => {
            let closing = expect_step(toks, step.pos, kind);
            match closing.outcome {
                Ok(_) => ok(value, closing.pos),
                Err(e) => fail(e, closing.pos),
            }
        },
        Err(e) => step,
    }
}

/// The working list after the operand that `operand` left on top of it was
/// taken off and wrapped by `wrap`; an error at `operator` if it left none.
pub open spec fn reduce_top(
    operand: Step<Seq<ExprView>>,
    operator: TokenDataView,
    wrap: spec_fn(ExprView) -> ExprView,
) -> Step<Seq<ExprView>> {
    match operand.outcome {
        Ok(stack) => if stack.len() == 0 {
            fail(missing_operand_error(operator), operand.pos)
        } else {
            ok(stack.drop_last().push(wrap(stack.last())), operand.pos)
        },
        Err(e) => operand,
    }
}

/// After `step`, pushes `wrap` of its value onto `stack`.
pub open spec fn push_result<T>(
    step: Step<T>,
    stack: Seq<ExprView>,
    wrap: spec_fn(T) -> ExprView,
) -> Step<Seq<ExprView>> {
    match step.outcome {
        Ok(value) => ok(stack.push(wrap(value)), step.pos),
        Err(e) => fail(e, step.pos),
    }
}

/// Reads one expression at `pos` against the working list `stack`.
///
/// The token at `pos` decides the shape. A leaf or a bracketed form is pushed.
/// A binary operator takes the top of the list as its left operand, reads one
/// expression behind itself as its right operand, and pushes the two combined;
/// `!` reads one expression and wraps what it left on top. An `|` before any
/// expression is dropped.
pub open spec fn expr_step(toks: Seq<SpecToken>, pos: int, stack: Seq<ExprView>) -> Step<
    Seq<ExprView>,
>
    decreases toks.len() - pos, 0int,
{
    if pos < 0 || pos >= toks.len() {
        fail(eof_error(), pos)
    } else {
        let kind = toks[pos].0;
        let loc = toks[pos].1;
        let p = pos + 1;
        match kind {
            TokenVariant::Identifier => ok(stack.push(ExprView::Identifier(loc)), p),
            TokenVariant::Dollar => push_result(
                expect_step(toks, p, TokenVariant::Identifier),
                stack,
                |d: TokenDataView| ExprView::FieldAccess(d),
            ),
            TokenVariant::Number => match number_literal(loc) {
                Ok(n) => ok(stack.push(ExprView::Literal(LiteralView::Number(n))), p),
                Err(e) => fail(e, p),
            },
            TokenVariant::True => ok(
                stack.push(ExprView::Literal(LiteralView::Boolean(true, loc))),
                p,
            ),
            TokenVariant::False => ok(
                stack.push(ExprView::Literal(LiteralView::Boolean(false, loc))),
                p,
            ),
            TokenVariant::String => ok(
                stack.push(ExprView::Literal(LiteralView::String(loc.v, loc))),
                p,
            ),
            TokenVariant::Regex => ok(stack.push(ExprView::Regex(loc)), p),
            TokenVariant::LBracket => push_result(
                then_expect(
                    type_list_step(toks, p, Seq::empty()),
                    toks,
                    TokenVariant::RBracket,
                ),
                stack,
                |items: Seq<Seq<ExprView>>| ExprView::List(items),
            ),
            TokenVariant::SetKw => {
                let open = expect_step(toks, p, TokenVariant::LBracket);
                match open.outcome {
                    Ok(_) => push_result(
                        then_expect(
                            type_list_step(toks, open.pos, Seq::empty()),
                            toks,
                            TokenVariant::RBracket,
                        ),
                        stack,
                        |items: Seq<Seq<ExprView>>| ExprView::SetOf(items),
                    ),
                    Err(e) => fail(e, open.pos),
                }
            },
            TokenVariant::LCurly => push_result(
                struct_fields_step(toks, p, Seq::empty()),
                stack,
                |fields: Seq<(TokenDataView, Seq<ExprView>)>| ExprView::Struct(fields),
            ),
            TokenVariant::Enum => {
                let open = expect_step(toks, p, TokenVariant::LCurly);
                match open.outcome {
                    Ok(_) => push_result(
                        struct_fields_step(toks, open.pos, Seq::empty()),
                        stack,
                        |fields: Seq<(TokenDataView, Seq<ExprView>)>| ExprView::Enum(fields),
                    ),
                    Err(e) => fail(e, open.pos),
                }
            },
            TokenVariant::At => push_result(
                annotation_step(toks, p),
                stack,
                |annotation: ExprView| annotation,
            ),
            TokenVariant::Not => reduce_top(
                expr_step(toks, p, stack),
                loc,
                |operand: ExprView| ExprView::Not(Box::new(operand)),
            ),
            _ => match binary_operator(kind) {
                Some(op) => if stack.len() == 0 && kind == TokenVariant::Or {
                    ok(stack, p)
                } else {
                    binary_step(toks, p, op, loc, stack)
                },
                None => fail(unexpected_token_error(loc), p),
            },
        }
    }
}

/// Reduces the binary operator `op`, whose token `operator` stands before
/// `pos`: the top of `stack` is the left operand, one expression read at `pos`
/// is the right one, and the two combined take the place of both.
pub open spec fn binary_step(
    toks: Seq<SpecToken>,
    pos: int,
    op: BinaryExprType,
    operator: TokenDataView,
    stack: Seq<ExprView>,
) -> Step<Seq<ExprView>>
    decreases toks.len() - pos, 1int,
{
    if stack.len() == 0 {
        fail(missing_left_error(operator), pos)
    } else {
        reduce_top(
            expr_step(toks, pos, stack.drop_last()),
            operator,
            |right: ExprView| ExprView::BinaryExpr(op, Box::new(stack.last()), Box::new(right)),
        )
    }
}

/// Reads a type body at `pos`: expressions against the working list `list`,
/// up to a terminator or the end of the tokens. A comma that ends the body is
/// consumed; any other terminator is left.
pub open spec fn anonym_type_step(toks: Seq<SpecToken>, pos: int, list: Seq<ExprView>) -> Step<
    Seq<ExprView>,
>
    decreases toks.len() - pos, 1int,
{
    let step = expr_step(toks, pos, list);
    match step.outcome {
        Ok(list1) => if step.pos < 0 || step.pos >= toks.len() {
            step
        } else if is_terminator(toks[step.pos].0) {
            if toks[step.pos].0 == TokenVariant::Comma {
                ok(list1, step.pos + 1)
            } else {
                step
            }
        } else if pos < step.pos {
            anonym_type_step(toks, step.pos, list1)
        } else {
            step
        },
        Err(e) => step,
    }
}

/// Reads type bodies at `pos` behind those in `acc`, up to a closing bracket,
/// a closing parenthesis or a semicolon, which is left.
pub open spec fn type_list_step(
    toks: Seq<SpecToken>,
    pos: int,
    acc: Seq<Seq<ExprView>>,
) -> Step<Seq<Seq<ExprView>>>
    decreases toks.len() - pos, 2int,
{
    if 0 <= pos < toks.len() && ends_list(toks[pos].0) {
        ok(acc, pos)
    } else {
        let item = anonym_type_step(toks, pos, Seq::empty());
        match item.outcome {
            Ok(body) => if pos < item.pos <= toks.len() {
                type_list_step(toks, item.pos, acc.push(body))
            } else {
                ok(acc.push(body), item.pos)
            },
            Err(e) => fail(e, item.pos),
        }
    }
}

/// Reads fields `name : body` at `pos` behind those in `acc`, up to and
/// including the closing brace.
pub open spec fn struct_fields_step(
    toks: Seq<SpecToken>,
    pos: int,
    acc: Seq<(TokenDataView, Seq<ExprView>)>,
) -> Step<Seq<(TokenDataView, Seq<ExprView>)>>
    decreases toks.len() - pos, 2int,
{
    if 0 <= pos < toks.len() && toks[pos].0 == TokenVariant::RCurly {
        ok(acc, pos + 1)
    } else {
        let name = expect_step(toks, pos, TokenVariant::Identifier);
        match name.outcome {
            Ok(key) => {
                let colon = expect_step(toks, name.pos, TokenVariant::Colon);
                match colon.outcome {
                    Ok(_) => {
                        let body = anonym_type_step(toks, colon.pos, Seq::empty());
                        match body.outcome {
                            Ok(t) => if pos < body.pos <= toks.len() {
                                struct_fields_step(toks, body.pos, acc.push((key, t)))
                            } else {
                                ok(acc.push((key, t)), body.pos)
                            },
                            Err(e) => fail(e, body.pos),
                        }
                    },
                    Err(e) => fail(e, colon.pos),
                }
            },
            Err(e) => fail(e, name.pos),
        }
    }
}

/// Reads an annotation behind its `@`: the name and, if a parenthesis
/// follows, the arguments up to the closing parenthesis.
pub open spec fn annotation_step(toks: Seq<SpecToken>, pos: int) -> Step<ExprView>
    decreases toks.len() - pos, 3int,
{
    let name = expect_step(toks, pos, TokenVariant::Identifier);
    match name.outcome {
        Ok(id) => if 0 <= name.pos < toks.len() && toks[name.pos].0 == TokenVariant::LParen {
            let args = then_expect(
                type_list_step(toks, name.pos + 1, Seq::empty()),
                toks,
                TokenVariant::RParen,
            );
            match args.outcome {
                Ok(list) => ok(ExprView::Annotation(id, list), args.pos),
                Err(e) => fail(e, args.pos),
            }
        } else {
            ok(ExprView::Annotation(id, Seq::empty()), name.pos)
        },
        Err(e) => fail(e, name.pos),
    }
}

/// Reads the name, the `=` and the body of a type declaration behind its
/// `type` keyword.
pub open spec fn type_declaration_step(toks: Seq<SpecToken>, pos: int) -> Step<DeclarationView> {
    let name = expect_step(toks, pos, TokenVariant::Identifier);
    match name.outcome {
        Ok(id) => {
            let eq = expect_step(toks, name.pos, TokenVariant::Eq);
            match eq.outcome {
                Ok(_) => {
                    let body = anonym_type_step(toks, eq.pos, Seq::empty());
                    match body.outcome {
                        Ok(t) => ok(DeclarationView::TypeDecl { name: id, t }, body.pos),
                        Err(e) => fail(e, body.pos),
                    }
                },
                Err(e) => fail(e, eq.pos),
            }
        },
        Err(e) => fail(e, name.pos),
    }
}

/// Reads one declaration at `pos`: `type`, a name, `=`, a body and `;`.
pub open spec fn declaration_step(toks: Seq<SpecToken>, pos: int) -> Step<DeclarationView> {
    if pos < 0 || pos >= toks.len() {
        fail(eof_error(), pos)
    } else if toks[pos].0 != TokenVariant::Type {
        fail(expected_type_error(toks[pos]), pos + 1)
    } else {
        then_expect(type_declaration_step(toks, pos + 1), toks, TokenVariant::Semicolon)
    }
}

/// Where parsing resumes after a declaration failed with the parser at
/// `pos`: at the next `type` keyword, behind the next `;`, or at the end of
/// the tokens, whichever comes first.
pub open spec fn recovery_point(toks: Seq<SpecToken>, pos: int) -> int
    decreases toks.len() - pos,
{
    if pos < 0 || pos >= toks.len() {
        pos
    } else if toks[pos].0 == TokenVariant::Type {
        pos
    } else if toks[pos].0 == TokenVariant::Semicolon {
        pos + 1
    } else {
        recovery_point(toks, pos + 1)
    }
}

/// Reads declarations from `pos` to the end of the tokens, behind the
/// declarations and the errors collected before `pos`. A declaration that
/// fails leaves its error, and parsing resumes at its recovery point.
pub open spec fn parse_from(
    toks: Seq<SpecToken>,
    pos: int,
    decls: Seq<DeclarationView>,
    errors: Seq<ParseErrorView>,
) -> (Seq<DeclarationView>, Seq<ParseErrorView>)
    decreases toks.len() - pos,
{
    if pos < 0 || pos >= toks.len() {
        (decls, errors)
    } else {
        let step = declaration_step(toks, pos);
        match step.outcome {
            Ok(d) => if pos < step.pos <= toks.len() {
                parse_from(toks, step.pos, decls.push(d), errors)
            } else {
                (decls.push(d), errors)
            },
            Err(e) => {
                let resume = recovery_point(toks, step.pos);
                if pos < resume <= toks.len() {
                    parse_from(toks, resume, decls, errors.push(e))
                } else {
                    (decls, errors.push(e))
                }
            },
        }
    }
}

/// The declarations and the errors of a whole token sequence.
pub open spec fn parse_tokens(toks: Seq<SpecToken>) -> (
    Seq<DeclarationView>,
    Seq<ParseErrorView>,
) {
    parse_from(toks, 0, Seq::empty(), Seq::empty())
}

/// A lexer error as the one parse error of a text: the lexer's message, at an
/// empty token on the line and column where the lexer stopped.
pub open spec fn lex_failure(kind: LexError, s: Seq<char>, at: int) -> ParseErrorView {
    ParseErrorView {
        message: lex_error_message(kind),
        location: Some(TokenDataView { v: Seq::empty(), l: line_of(s, at), c: column_of(s, at) }),
    }
}

/// Mathematical model of the analysis of one text.
pub struct AnalysisView {
    pub tokens: Seq<SpecToken>,
    pub declarations: Seq<DeclarationView>,
    pub errors: Seq<ParseErrorView>,
}

/// The analysis of a source text: its tokens and what they parse to, or, if
/// the text does not lex, no tokens, no declarations and the lexer's error.
pub open spec fn parse_source(s: Seq<char>) -> AnalysisView {
    match lex(s) {
        LexOutcome::Tokens(lexemes) => {
            let toks = lexeme_tokens(s, lexemes);
            AnalysisView {
                tokens: toks,
                declarations: parse_tokens(toks).0,
                errors: parse_tokens(toks).1,
            }
        },
        LexOutcome::Failed { kind, at } => AnalysisView {
            tokens: Seq::empty(),
            declarations: Seq::empty(),
            errors: seq![lex_failure(kind, s, at)],
        },
    }
}

} // verus!
