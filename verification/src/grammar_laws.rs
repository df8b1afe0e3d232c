//! Laws of the grammar.
//!
//! Every step moves forward and never passes the end of the token sequence,
//! and a step that reads something consumes at least one token: the tests of
//! positions in the grammar's definitions never fail. Where the tokens are
//! well placed, so is every error and every name that the parser hands out.

use crate::grammar::{
    annotation_step, anonym_type_step, binary_operator, binary_step, declaration_step, expect_step,
    expr_step, parse_from, parse_source, recovery_point, struct_fields_step, then_expect,
    type_declaration_step, type_list_step, AnalysisView, ParseErrorView, Step,
};
use crate::lexing::{
    lemma_column_bound, lemma_lex_failure_bounds, lemma_tokens_tile_source, lex, lexeme_source,
    lexeme_token, lexeme_tokens, Lexeme, LexOutcome,
};
use crate::parser_expr::{BinaryExprType, DeclarationView, ExprView};
use crate::tokens::{SpecToken, TokenDataView, TokenVariant};
use vstd::prelude::*;

verus! {

/// Whether a token's line and column are 1-based and the column behind its
/// text is a machine integer.
pub open spec fn well_placed(d: TokenDataView) -> bool {
    d.l >= 1 && d.c >= 1 && d.c - 1 + d.v.len() <= usize::MAX
}

/// Whether every token is well placed.
pub open spec fn tokens_placed(toks: Seq<SpecToken>) -> bool {
    forall|k: int| 0 <= k < toks.len() ==> well_placed((#[trigger] toks[k]).1)
}

/// Whether the error points at no token or at a well-placed one.
pub open spec fn error_placed(e: ParseErrorView) -> bool {
    e.location matches Some(d) ==> well_placed(d)
}

/// Whether every error is placed.
pub open spec fn errors_placed(errors: Seq<ParseErrorView>) -> bool {
    forall|k: int| 0 <= k < errors.len() ==> error_placed(#[trigger] errors[k])
}

/// Whether every annotation among the clauses has a well-placed name.
pub open spec fn clauses_placed(list: Seq<ExprView>) -> bool {
    forall|k: int|
        0 <= k < list.len() ==> ((#[trigger] list[k]) matches ExprView::Annotation(name, _)
            ==> well_placed(name))
}

/// Whether the name of the declaration and the annotations among its
/// clauses are well placed.
pub open spec fn declaration_placed(d: DeclarationView) -> bool {
    match d {
        DeclarationView::TypeDecl { name, t } => well_placed(name) && clauses_placed(t),
    }
}

/// Whether every declaration is placed.
pub open spec fn declarations_placed(decls: Seq<DeclarationView>) -> bool {
    forall|k: int| 0 <= k < decls.len() ==> declaration_placed(#[trigger] decls[k])
}

/// Whether the tokens, the declarations and the errors of an analysis are
/// placed.
pub open spec fn analysis_placed(a: AnalysisView) -> bool {
    tokens_placed(a.tokens) && declarations_placed(a.declarations) && errors_placed(a.errors)
}

/// Whether `step`, taken at `pos` of `len` tokens, moved forward only and
/// stayed within the tokens if it moved.
pub open spec fn advances<T>(step: Step<T>, pos: int, len: nat) -> bool {
    &&& pos <= step.pos
    &&& step.pos == pos || step.pos <= len
}

/// Whether `step` points its error, if it has one, at a well-placed token.
pub open spec fn fails_in_place<T>(step: Step<T>) -> bool {
    step.outcome matches Err(e) ==> error_placed(e)
}

proof fn lemma_expect(toks: Seq<SpecToken>, pos: int, kind: TokenVariant)
    ensures
        advances(expect_step(toks, pos, kind), pos, toks.len()),
        expect_step(toks, pos, kind).outcome is Ok ==> expect_step(toks, pos, kind).pos == pos + 1,
        tokens_placed(toks) ==> fails_in_place(expect_step(toks, pos, kind)) && (expect_step(
            toks,
            pos,
            kind,
        ).outcome matches Ok(d) ==> well_placed(d)),
{
}

proof fn lemma_then_expect<T>(step: Step<T>, toks: Seq<SpecToken>, kind: TokenVariant, pos: int)
    requires
        advances(step, pos, toks.len()),
    ensures
        advances(then_expect(step, toks, kind), pos, toks.len()),
        then_expect(step, toks, kind).outcome is Ok ==> pos < then_expect(step, toks, kind).pos,
        tokens_placed(toks) && fails_in_place(step) ==> fails_in_place(
            then_expect(step, toks, kind),
        ),
{
    lemma_expect(toks, step.pos, kind);
}

/// What holds of reading one expression.
pub proof fn lemma_expr_step(toks: Seq<SpecToken>, pos: int, stack: Seq<ExprView>)
    ensures
        advances(expr_step(toks, pos, stack), pos, toks.len()),
        expr_step(toks, pos, stack).outcome is Ok ==> pos < expr_step(toks, pos, stack).pos,
        tokens_placed(toks) && clauses_placed(stack) ==> fails_in_place(
            expr_step(toks, pos, stack),
        ) && (expr_step(toks, pos, stack).outcome matches Ok(after) ==> clauses_placed(after)),
    decreases toks.len() - pos, 0int,
{
    if pos < 0 || pos >= toks.len() {
    } else {
        let kind = toks[pos].0;
        let loc = toks[pos].1;
        let p = pos + 1;
        assert(tokens_placed(toks) ==> well_placed(loc));
        lemma_expect(toks, p, TokenVariant::Identifier);
        lemma_expect(toks, p, TokenVariant::LBracket);
        lemma_expect(toks, p, TokenVariant::LCurly);
        match kind {
            TokenVariant::LBracket => {
                lemma_type_list_step(toks, p, Seq::empty());
                lemma_then_expect(
                    type_list_step(toks, p, Seq::empty()),
                    toks,
                    TokenVariant::RBracket,
                    p,
                );
            },
            TokenVariant::SetKw => {
                let open = expect_step(toks, p, TokenVariant::LBracket);
                if open.outcome is Ok {
                    lemma_type_list_step(toks, open.pos, Seq::empty());
                    lemma_then_expect(
                        type_list_step(toks, open.pos, Seq::empty()),
                        toks,
                        TokenVariant::RBracket,
                        open.pos,
                    );
                }
            },
            TokenVariant::LCurly => {
                lemma_struct_fields_step(toks, p, Seq::empty());
            },
            TokenVariant::Enum => {
                let open = expect_step(toks, p, TokenVariant::LCurly);
                if open.outcome is Ok {
                    lemma_struct_fields_step(toks, open.pos, Seq::empty());
                }
            },
            TokenVariant::At => {
                lemma_annotation_step(toks, p);
            },
            TokenVariant::Not => {
                lemma_expr_step(toks, p, stack);
            },
            _ => {
                if binary_operator(kind) is Some {
                    lemma_binary_step(toks, p, binary_operator(kind)->0, loc, stack);
                }
            },
        }
    }
}

/// What holds of reducing a binary operator.
pub proof fn lemma_binary_step(
    toks: Seq<SpecToken>,
    pos: int,
    op: BinaryExprType,
    operator: TokenDataView,
    stack: Seq<ExprView>,
)
    requires
        0 <= pos <= toks.len(),
    ensures
        advances(binary_step(toks, pos, op, operator, stack), pos, toks.len()),
        binary_step(toks, pos, op, operator, stack).outcome is Ok ==> pos < binary_step(
            toks,
            pos,
            op,
            operator,
            stack,
        ).pos,
        tokens_placed(toks) && clauses_placed(stack) && well_placed(operator) ==> fails_in_place(
            binary_step(toks, pos, op, operator, stack),
        ) && (binary_step(toks, pos, op, operator, stack).outcome matches Ok(after)
            ==> clauses_placed(after)),
    decreases toks.len() - pos, 1int,
{
    if stack.len() > 0 {
        lemma_expr_step(toks, pos, stack.drop_last());
    }
}

/// What holds of reading a type body.
pub proof fn lemma_anonym_type_step(toks: Seq<SpecToken>, pos: int, list: Seq<ExprView>)
    ensures
        advances(anonym_type_step(toks, pos, list), pos, toks.len()),
        anonym_type_step(toks, pos, list).outcome is Ok ==> pos < anonym_type_step(
            toks,
            pos,
            list,
        ).pos,
        tokens_placed(toks) && clauses_placed(list) ==> fails_in_place(
            anonym_type_step(toks, pos, list),
        ) && (anonym_type_step(toks, pos, list).outcome matches Ok(after) ==> clauses_placed(
            after,
        )),
    decreases toks.len() - pos, 1int,
{
    lemma_expr_step(toks, pos, list);
    let step = expr_step(toks, pos, list);
    if let Ok(list1) = step.outcome {
        if 0 <= step.pos < toks.len() && !crate::grammar::is_terminator(toks[step.pos].0) {
            lemma_anonym_type_step(toks, step.pos, list1);
        }
    }
}

/// What holds of reading a type list.
pub proof fn lemma_type_list_step(toks: Seq<SpecToken>, pos: int, acc: Seq<Seq<ExprView>>)
    ensures
        advances(type_list_step(toks, pos, acc), pos, toks.len()),
        tokens_placed(toks) ==> fails_in_place(type_list_step(toks, pos, acc)),
    decreases toks.len() - pos, 2int,
{
    if 0 <= pos < toks.len() && crate::grammar::ends_list(toks[pos].0) {
    } else {
        lemma_anonym_type_step(toks, pos, Seq::empty());
        let item = anonym_type_step(toks, pos, Seq::empty());
        if let Ok(body) = item.outcome {
            lemma_type_list_step(toks, item.pos, acc.push(body));
        }
    }
}

/// What holds of reading the fields of a struct or an enum.
pub proof fn lemma_struct_fields_step(
    toks: Seq<SpecToken>,
    pos: int,
    acc: Seq<(TokenDataView, Seq<ExprView>)>,
)
    ensures
        advances(struct_fields_step(toks, pos, acc), pos, toks.len()),
        struct_fields_step(toks, pos, acc).outcome is Ok ==> pos < struct_fields_step(
            toks,
            pos,
            acc,
        ).pos,
        tokens_placed(toks) ==> fails_in_place(struct_fields_step(toks, pos, acc)),
    decreases toks.len() - pos, 2int,
{
    if 0 <= pos < toks.len() && toks[pos].0 == TokenVariant::RCurly {
    } else {
        lemma_expect(toks, pos, TokenVariant::Identifier);
        let name = expect_step(toks, pos, TokenVariant::Identifier);
        if let Ok(key) = name.outcome {
            lemma_expect(toks, name.pos, TokenVariant::Colon);
            let colon = expect_step(toks, name.pos, TokenVariant::Colon);
            if colon.outcome is Ok {
                lemma_anonym_type_step(toks, colon.pos, Seq::empty());
                let body = anonym_type_step(toks, colon.pos, Seq::empty());
                if let Ok(t) = body.outcome {
                    lemma_struct_fields_step(toks, body.pos, acc.push((key, t)));
                }
            }
        }
    }
}

/// What holds of reading an annotation.
pub proof fn lemma_annotation_step(toks: Seq<SpecToken>, pos: int)
    ensures
        advances(annotation_step(toks, pos), pos, toks.len()),
        annotation_step(toks, pos).outcome is Ok ==> pos < annotation_step(toks, pos).pos,
        tokens_placed(toks) ==> fails_in_place(annotation_step(toks, pos)) && (annotation_step(
            toks,
            pos,
        ).outcome matches Ok(e) ==> (e matches ExprView::Annotation(name, _) && well_placed(
            name,
        ))),
    decreases toks.len() - pos, 3int,
{
    lemma_expect(toks, pos, TokenVariant::Identifier);
    let name = expect_step(toks, pos, TokenVariant::Identifier);
    if name.outcome is Ok {
        if 0 <= name.pos < toks.len() && toks[name.pos].0 == TokenVariant::LParen {
            lemma_type_list_step(toks, name.pos + 1, Seq::empty());
            lemma_then_expect(
                type_list_step(toks, name.pos + 1, Seq::empty()),
                toks,
                TokenVariant::RParen,
                name.pos + 1,
            );
        }
    }
}

/// What holds of reading one declaration: it consumes at least one token if
/// there is one, and what it gives is well placed.
pub proof fn lemma_declaration_step(toks: Seq<SpecToken>, pos: int)
    ensures
        advances(declaration_step(toks, pos), pos, toks.len()),
        0 <= pos < toks.len() ==> pos < declaration_step(toks, pos).pos,
        tokens_placed(toks) ==> fails_in_place(declaration_step(toks, pos)) && (declaration_step(
            toks,
            pos,
        ).outcome matches Ok(d) ==> declaration_placed(d)),
{
    if 0 <= pos < toks.len() && toks[pos].0 == TokenVariant::Type {
        let p = pos + 1;
        lemma_expect(toks, p, TokenVariant::Identifier);
        let name = expect_step(toks, p, TokenVariant::Identifier);
        if name.outcome is Ok {
            lemma_expect(toks, name.pos, TokenVariant::Eq);
            let eq = expect_step(toks, name.pos, TokenVariant::Eq);
            if eq.outcome is Ok {
                lemma_anonym_type_step(toks, eq.pos, Seq::empty());
            }
        }
        assert(advances(type_declaration_step(toks, p), p, toks.len()));
        assert(tokens_placed(toks) ==> fails_in_place(type_declaration_step(toks, p)));
        lemma_then_expect(type_declaration_step(toks, p), toks, TokenVariant::Semicolon, p);
    }
}

/// The recovery point lies at or behind the place where the declaration
/// failed, and within the tokens if that place does.
pub proof fn lemma_recovery_point(toks: Seq<SpecToken>, pos: int)
    ensures
        pos <= recovery_point(toks, pos),
        recovery_point(toks, pos) == pos || recovery_point(toks, pos) <= toks.len(),
    decreases toks.len() - pos,
{
    if 0 <= pos < toks.len() && toks[pos].0 != TokenVariant::Type && toks[pos].0
        != TokenVariant::Semicolon {
        lemma_recovery_point(toks, pos + 1);
    }
}

/// Recovery skips no declaration: no token that it passes is a `type`
/// keyword, only the last token that it passes can be a `;`, and unless it
/// passed a `;` it stops at a `type` keyword or at the end of the tokens.
pub proof fn lemma_recovery_stops_at_boundary(toks: Seq<SpecToken>, pos: int)
    requires
        0 <= pos <= toks.len(),
    ensures
        pos <= recovery_point(toks, pos) <= toks.len(),
        forall|k: int|
            pos <= k < recovery_point(toks, pos) ==> (#[trigger] toks[k]).0 != TokenVariant::Type
                && (toks[k].0 == TokenVariant::Semicolon ==> k == recovery_point(toks, pos) - 1),
        recovery_point(toks, pos) == toks.len() || toks[recovery_point(toks, pos)].0
            == TokenVariant::Type || (pos < recovery_point(toks, pos) && toks[recovery_point(
            toks,
            pos,
        ) - 1].0 == TokenVariant::Semicolon),
    decreases toks.len() - pos,
{
    if pos < toks.len() && toks[pos].0 != TokenVariant::Type && toks[pos].0
        != TokenVariant::Semicolon {
        lemma_recovery_stops_at_boundary(toks, pos + 1);
    }
}

/// What holds of parsing from `pos` on.
pub proof fn lemma_parse_from(
    toks: Seq<SpecToken>,
    pos: int,
    decls: Seq<DeclarationView>,
    errors: Seq<ParseErrorView>,
)
    requires
        tokens_placed(toks),
        declarations_placed(decls),
        errors_placed(errors),
    ensures
        declarations_placed(parse_from(toks, pos, decls, errors).0),
        errors_placed(parse_from(toks, pos, decls, errors).1),
    decreases toks.len() - pos,
{
    if pos < 0 || pos >= toks.len() {
    } else {
        lemma_declaration_step(toks, pos);
        let step = declaration_step(toks, pos);
        match step.outcome {
            Ok(d) => {
                lemma_parse_from(toks, step.pos, decls.push(d), errors);
            },
            Err(e) => {
                lemma_recovery_point(toks, step.pos);
                lemma_parse_from(toks, recovery_point(toks, step.pos), decls, errors.push(e));
            },
        }
    }
}

proof fn lemma_lexeme_text_len(s: Seq<char>, lx: Lexeme)
    requires
        0 <= lx.start < lx.end <= s.len(),
        lexeme_source(s, lx) == s.subrange(lx.start, lx.end),
    ensures
        lexeme_token(s, lx).1.v.len() <= lx.end - lx.start,
{
    let text = lexeme_token(s, lx).1.v;
    assert(s.subrange(lx.start, lx.end).len() == lx.end - lx.start);
    if lx.kind == TokenVariant::String {
        assert((seq!['"'] + text + seq!['"']).len() == text.len() + 2);
    } else if lx.kind == TokenVariant::Regex {
        assert((seq!['/'] + text + seq!['/']).len() == text.len() + 2);
    }
}

/// The tokens of a text that fits a machine are well placed.
pub proof fn lemma_lexed_tokens_placed(s: Seq<char>)
    requires
        s.len() <= usize::MAX,
    ensures
        lex(s) matches LexOutcome::Tokens(lexemes) ==> tokens_placed(lexeme_tokens(s, lexemes)),
{
    if let LexOutcome::Tokens(lexemes) = lex(s) {
        lemma_tokens_tile_source(s);
        let toks = lexeme_tokens(s, lexemes);
        assert forall|k: int| 0 <= k < toks.len() implies well_placed((#[trigger] toks[k]).1) by {
            let lx = lexemes[k];
            assert(toks[k] == lexeme_token(s, lx));
            assert(0 <= lx.start < lx.end <= s.len() && lexeme_source(s, lx) == s.subrange(
                lx.start,
                lx.end,
            ));
            lemma_lexeme_text_len(s, lx);
            lemma_column_bound(s, lx.start);
        }
    }
}

/// In the analysis of a text that fits a machine, every token, every
/// declaration's name, every annotation among a declaration's clauses and
/// every error's location is well placed.
pub proof fn lemma_parse_source_placed(s: Seq<char>)
    requires
        s.len() <= usize::MAX,
    ensures
        analysis_placed(parse_source(s)),
{
    match lex(s) {
        LexOutcome::Tokens(lexemes) => {
            lemma_lexed_tokens_placed(s);
            lemma_parse_from(lexeme_tokens(s, lexemes), 0, Seq::empty(), Seq::empty());
        },
        LexOutcome::Failed { kind, at } => {
            lemma_lex_failure_bounds(s, 0, Seq::empty());
            lemma_column_bound(s, at);
        },
    }
}

} // verus!
