//! The printed form of the syntax tree.
//!
//! A declaration reads `type <name> = <clause> | <clause> ...`. A clause
//! sequence inside a bracketed form is written with a space before each of
//! its expressions, and a binary expression in parentheses. A string and a
//! regex are written inside their delimiters. A number is followed by
//! `: Int` or `: Float`; a decimal keeps the digits as written.

use crate::parser_expr::{
    lemma_view_compound, operator_symbol, view_expr, view_exprs, view_fields, view_type_list,
    Declaration, DeclarationView, Expr, ExprView, KeyValExpr, Literal, LiteralView, NumberType,
    NumberTypeView,
};
use crate::text::{decimal, push_decimal};
use crate::tokens::TokenDataView;
use vstd::prelude::*;
use vstd::string::*;

verus! {

/// The decimal rendering of an integer, with a minus sign if it is negative.
pub open spec fn signed_decimal(n: int) -> Seq<char> {
    if n < 0 {
        "-"@ + decimal((-n) as nat)
    } else {
        decimal(n as nat)
    }
}

/// A literal as it is printed.
pub open spec fn render_literal(l: LiteralView) -> Seq<char> {
    match l {
        LiteralView::Number(NumberTypeView::Int(n, _)) => signed_decimal(n as int) + ": Int"@,
        LiteralView::Number(NumberTypeView::Float(d)) => d.v + ": Float"@,
        LiteralView::String(s, _) => "\""@ + s + "\""@,
        LiteralView::Boolean(b, _) => if b {
            "true"@
        } else {
            "false"@
        },
    }
}

/// An expression as it is printed.
pub open spec fn render_expr(e: ExprView) -> Seq<char>
    decreases e, 0int,
{
    match e {
        ExprView::Identifier(d) => d.v,
        ExprView::Literal(l) => render_literal(l),
        ExprView::Regex(d) => "/"@ + d.v + "/"@,
        ExprView::Annotation(id, params) => "@"@ + id.v + "("@ + render_type_list(
            params,
            params.len() as int,
        ) + ")"@,
        ExprView::Not(inner) => "!"@ + render_expr(*inner),
        ExprView::FieldAccess(d) => "$"@ + d.v,
        ExprView::BinaryExpr(op, left, right) => "("@ + render_expr(*left) + " "@
            + operator_symbol(op) + " "@ + render_expr(*right) + ")"@,
        ExprView::List(items) => "["@ + render_type_list(items, items.len() as int) + "]"@,
        ExprView::SetOf(items) => "{"@ + render_type_list(items, items.len() as int) + "}"@,
        ExprView::Struct(fields) => "{\n"@ + render_fields(fields, fields.len() as int) + "}\n"@,
        ExprView::Enum(fields) => "enum {"@ + render_variants(fields, fields.len() as int) + "}"@,
    }
}

/// The first `n` expressions of a clause sequence, a space before each.
pub open spec fn render_clauses(list: Seq<ExprView>, n: int) -> Seq<char>
    decreases list, n,
{
    if n <= 0 || n > list.len() {
        Seq::empty()
    } else {
        render_clauses(list, n - 1) + " "@ + render_expr(list[n - 1])
    }
}

/// The first `n` clause sequences of a type list, separated by commas.
pub open spec fn render_type_list(items: Seq<Seq<ExprView>>, n: int) -> Seq<char>
    decreases items, n,
{
    if n <= 0 || n > items.len() {
        Seq::empty()
    } else {
        render_type_list(items, n - 1) + (if n > 1 {
            ", "@
        } else {
            Seq::empty()
        }) + render_clauses(items[n - 1], items[n - 1].len() as int)
    }
}

/// The first `n` fields of a struct, each on a line of its own.
pub open spec fn render_fields(fields: Seq<(TokenDataView, Seq<ExprView>)>, n: int) -> Seq<char>
    decreases fields, n,
{
    if n <= 0 || n > fields.len() {
        Seq::empty()
    } else {
        render_fields(fields, n - 1) + (if n > 1 {
            ", "@
        } else {
            Seq::empty()
        }) + fields[n - 1].0.v + ":"@ + render_clauses(
            fields[n - 1].1,
            fields[n - 1].1.len() as int,
        ) + ",\n"@
    }
}

/// The first `n` variants of an enum, each with its clauses in parentheses.
pub open spec fn render_variants(fields: Seq<(TokenDataView, Seq<ExprView>)>, n: int) -> Seq<char>
    decreases fields, n,
{
    if n <= 0 || n > fields.len() {
        Seq::empty()
    } else {
        render_variants(fields, n - 1) + (if n > 1 {
            ", "@
        } else {
            Seq::empty()
        }) + fields[n - 1].0.v + "("@ + render_clauses(
            fields[n - 1].1,
            fields[n - 1].1.len() as int,
        ) + ")"@
    }
}

/// The first `n` clauses of a declaration, separated by bars.
pub open spec fn render_alternatives(list: Seq<ExprView>, n: int) -> Seq<char>
    decreases n,
{
    if n <= 0 || n > list.len() {
        Seq::empty()
    } else {
        render_alternatives(list, n - 1) + (if n > 1 {
            " | "@
        } else {
            Seq::empty()
        }) + render_expr(list[n - 1])
    }
}

/// A declaration as it is printed.
pub open spec fn render_declaration(d: DeclarationView) -> Seq<char> {
    match d {
        DeclarationView::TypeDecl { name, t } => "type "@ + name.v + " = "@ + render_alternatives(
            t,
            t.len() as int,
        ),
    }
}

/// Appends the decimal rendering of `n`, with its sign.
fn push_signed(out: &mut String, n: i64)
    ensures
        final(out)@ == old(out)@ + signed_decimal(n as int),
{
    if n < 0 {
        out.append("-");
        let magnitude: u64 = if n == i64::MIN {
            9223372036854775808u64
        } else {
            (-n) as u64
        };
        push_decimal(out, magnitude);
        assert(out@ =~= old(out)@ + signed_decimal(n as int));
    } else {
        push_decimal(out, n as u64);
    }
}

fn push_literal(out: &mut String, l: &Literal)
    ensures
        final(out)@ == old(out)@ + render_literal(l@),
{
    match l {
        Literal::Number(NumberType::Int(n, _)) => {
            push_signed(out, *n);
            out.append(": Int");
        },
        Literal::Number(NumberType::Float(d)) => {
            out.append(d.v.as_str());
            out.append(": Float");
        },
        Literal::String(s, _) => {
            out.append("\"");
            out.append(s.as_str());
            out.append("\"");
        },
        Literal::Boolean(b, _) => {
            if *b {
                out.append("true");
            } else {
                out.append("false");
            }
        },
    }
    assert(out@ =~= old(out)@ + render_literal(l@));
}

/// Appends the printed form of `e`.
pub fn push_expr(out: &mut String, e: &Expr)
    ensures
        final(out)@ == old(out)@ + render_expr(view_expr(*e)),
    decreases e, 0int,
{
    proof {
        lemma_view_compound(*e);
    }
    match e {
        Expr::Identifier(d) => {
            out.append(d.v.as_str());
        },
        Expr::Literal(l) => {
            push_literal(out, l);
        },
        Expr::Regex(d) => {
            out.append("/");
            out.append(d.v.as_str());
            out.append("/");
        },
        Expr::Annotation(id, params) => {
            out.append("@");
            out.append(id.v.as_str());
            out.append("(");
            push_type_list(out, params);
            out.append(")");
        },
        Expr::Not(inner) => {
            out.append("!");
            push_expr(out, &**inner);
        },
        Expr::FieldAccess(d) => {
            out.append("$");
            out.append(d.v.as_str());
        },
        Expr::BinaryExpr(op, operands) => {
            out.append("(");
            push_expr(out, &operands.0);
            out.append(" ");
            out.append(op.symbol());
            out.append(" ");
            push_expr(out, &operands.1);
            out.append(")");
        },
        Expr::List(items) => {
            out.append("[");
            push_type_list(out, items);
            out.append("]");
        },
        Expr::SetOf(items) => {
            out.append("{");
            push_type_list(out, items);
            out.append("}");
        },
        Expr::Struct(fields) => {
            out.append("{\n");
            push_fields(out, fields, false);
            out.append("}\n");
        },
        Expr::Enum(fields) => {
            out.append("enum {");
            push_fields(out, fields, true);
            out.append("}");
        },
    }
    assert(out@ =~= old(out)@ + render_expr(view_expr(*e)));
}

/// Appends a clause sequence, a space before each of its expressions.
fn push_clauses(out: &mut String, list: &Vec<Expr>)
    ensures
        final(out)@ == old(out)@ + render_clauses(view_exprs(list@), list@.len() as int),
    decreases list, 1int,
{
    let ghost views = view_exprs(list@);
    let mut i: usize = 0;
    assert(out@ =~= old(out)@ + render_clauses(views, 0));
    while i < list.len()
        invariant
            i <= list@.len(),
            views == view_exprs(list@),
            out@ == old(out)@ + render_clauses(views, i as int),
        decreases list@.len() - i,
    {
        let ghost before = out@;
        assert(views[i as int] == view_expr(list@[i as int]));
        out.append(" ");
        push_expr(out, &list[i]);
        i = i + 1;
        assert(out@ =~= old(out)@ + render_clauses(views, i as int));
    }
}

/// Appends a type list, its clause sequences separated by commas.
fn push_type_list(out: &mut String, items: &Vec<Vec<Expr>>)
    ensures
        final(out)@ == old(out)@ + render_type_list(view_type_list(items@), items@.len() as int),
    decreases items, 2int,
{
    let ghost views = view_type_list(items@);
    let mut i: usize = 0;
    assert(out@ =~= old(out)@ + render_type_list(views, 0));
    while i < items.len()
        invariant
            i <= items@.len(),
            views == view_type_list(items@),
            out@ == old(out)@ + render_type_list(views, i as int),
        decreases items@.len() - i,
    {
        assert(views[i as int] == view_exprs(items@[i as int]@));
        if i > 0 {
            out.append(", ");
        }
        push_clauses(out, &items[i]);
        i = i + 1;
        assert(out@ =~= old(out)@ + render_type_list(views, i as int));
    }
}

/// Appends the fields of a struct, or, if `variants`, those of an enum.
fn push_fields(out: &mut String, fields: &Vec<KeyValExpr>, variants: bool)
    ensures
        final(out)@ == old(out)@ + (if variants {
            render_variants(view_fields(fields@), fields@.len() as int)
        } else {
            render_fields(view_fields(fields@), fields@.len() as int)
        }),
    decreases fields, 2int,
{
    let ghost views = view_fields(fields@);
    let mut i: usize = 0;
    assert(out@ =~= old(out)@ + render_variants(views, 0));
    assert(out@ =~= old(out)@ + render_fields(views, 0));
    while i < fields.len()
        invariant
            i <= fields@.len(),
            views == view_fields(fields@),
            out@ == old(out)@ + (if variants {
                render_variants(views, i as int)
            } else {
                render_fields(views, i as int)
            }),
        decreases fields@.len() - i,
    {
        assert(views[i as int] == (fields@[i as int].0@, view_exprs(fields@[i as int].1@)));
        if i > 0 {
            out.append(", ");
        }
        out.append(fields[i].0.v.as_str());
        if variants {
            out.append("(");
            push_clauses(out, &fields[i].1);
            out.append(")");
        } else {
            out.append(":");
            push_clauses(out, &fields[i].1);
            out.append(",\n");
        }
        i = i + 1;
        assert(out@ =~= old(out)@ + (if variants {
            render_variants(views, i as int)
        } else {
            render_fields(views, i as int)
        }));
    }
}

impl Expr {
    /// This expression as it is printed.
    pub fn render(&self) -> (r: String)
        ensures
            r@ == render_expr(view_expr(*self)),
    {
        let mut out = String::new();
        push_expr(&mut out, self);
        assert(out@ =~= render_expr(view_expr(*self)));
        out
    }
}

impl Literal {
    /// This literal as it is printed.
    pub fn render(&self) -> (r: String)
        ensures
            r@ == render_literal(self@),
    {
        let mut out = String::new();
        push_literal(&mut out, self);
        assert(out@ =~= render_literal(self@));
        out
    }
}

impl Declaration {
    /// This declaration as it is printed.
    pub fn render(&self) -> (r: String)
        ensures
            r@ == render_declaration(self@),
    {
        match self {
            Declaration::TypeDecl { name, t } => {
                let mut out = String::from_str("type ");
                out.append(name.v.as_str());
                out.append(" = ");
                let ghost head = out@;
                let ghost views = view_exprs(t@);
                let mut i: usize = 0;
                assert(out@ =~= head + render_alternatives(views, 0));
                while i < t.len()
                    invariant
                        i <= t@.len(),
                        views == view_exprs(t@),
                        out@ == head + render_alternatives(views, i as int),
                    decreases t@.len() - i,
                {
                    assert(views[i as int] == view_expr(t@[i as int]));
                    if i > 0 {
                        out.append(" | ");
                    }
                    push_expr(&mut out, &t[i]);
                    i = i + 1;
                    assert(out@ =~= head + render_alternatives(views, i as int));
                }
                assert(out@ =~= render_declaration(self@));
                out
            },
        }
    }
}

} // verus!
