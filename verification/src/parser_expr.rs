//! The syntax tree: declarations and the expressions of their bodies.

use crate::tokens::{TokenData, TokenDataView};
use vstd::prelude::*;

verus! {

/// The two operands of a binary expression.
pub type BinaryExpr = Box<(Expr, Expr)>;

/// A field of a struct or an enum: its name and its type.
pub type KeyValExpr = (TokenData, AnonymType);

/// The body of a type: its clauses, in order.
pub type AnonymType = Vec<Expr>;

/// The elements of a list or a set, or the arguments of an annotation.
pub type TypeList = Vec<AnonymType>;

/// A top-level declaration.
#[derive(Debug, PartialEq)]
pub enum Declaration {
    /// `type <name> = <t> ;`
    TypeDecl { name: TokenData, t: Vec<Expr> },
}

/// A number literal. An integer carries its value; a decimal carries its
/// token, whose text is the literal as written.
#[derive(Debug, PartialEq)]
pub enum NumberType {
    Int(i64, TokenData),
    Float(TokenData),
}

/// A literal, with the token it was read from.
#[derive(Debug, PartialEq)]
pub enum Literal {
    Number(NumberType),
    String(String, TokenData),
    Boolean(bool, TokenData),
}

/// The operators of binary expressions.
#[derive(Debug, Clone, Copy, PartialEq, Eq, Hash, Structural)]
pub enum BinaryExprType {
    Union,
    Intersection,
    Difference,
    SymmetricDifference,
    Or,
    Xor,
    Range,
    Add,
    Remove,
}

/// The symbol of a binary operator.
pub open spec fn operator_symbol(op: BinaryExprType) -> Seq<char> {
    match op {
        BinaryExprType::Union => "+"@,
        BinaryExprType::Intersection => "*"@,
        BinaryExprType::Difference => "-"@,
        BinaryExprType::SymmetricDifference => "<>"@,
        BinaryExprType::Or => "|"@,
        BinaryExprType::Xor => "^"@,
        BinaryExprType::Range => ".."@,
        BinaryExprType::Add => "+"@,
        BinaryExprType::Remove => "-"@,
    }
}

impl BinaryExprType {
    /// The symbol of this operator.
    pub fn symbol(&self) -> (r: &'static str)
        ensures
            r@ == operator_symbol(*self),
    {
        match self {
            BinaryExprType::Union => "+",
            BinaryExprType::Intersection => "*",
            BinaryExprType::Difference => "-",
            BinaryExprType::SymmetricDifference => "<>",
            BinaryExprType::Or => "|",
            BinaryExprType::Xor => "^",
            BinaryExprType::Range => "..",
            BinaryExprType::Add => "+",
            BinaryExprType::Remove => "-",
        }
    }
}

/// An expression.
#[derive(Debug, PartialEq)]
pub enum Expr {
    Identifier(TokenData),
    Literal(Literal),
    Regex(TokenData),
    Annotation(TokenData, TypeList),
    Not(Box<Expr>),
    FieldAccess(TokenData),
    BinaryExpr(BinaryExprType, BinaryExpr),
    List(TypeList),
    SetOf(TypeList),
    Struct(Vec<KeyValExpr>),
    Enum(Vec<KeyValExpr>),
}

/// Mathematical model of a [`NumberType`].
pub enum NumberTypeView {
    Int(i64, TokenDataView),
    Float(TokenDataView),
}

/// Mathematical model of a [`Literal`].
pub enum LiteralView {
    Number(NumberTypeView),
    String(Seq<char>, TokenDataView),
    Boolean(bool, TokenDataView),
}

/// Mathematical model of an [`Expr`].
pub enum ExprView {
    Identifier(TokenDataView),
    Literal(LiteralView),
    Regex(TokenDataView),
    Annotation(TokenDataView, Seq<Seq<ExprView>>),
    Not(Box<ExprView>),
    FieldAccess(TokenDataView),
    BinaryExpr(BinaryExprType, Box<ExprView>, Box<ExprView>),
    List(Seq<Seq<ExprView>>),
    SetOf(Seq<Seq<ExprView>>),
    Struct(Seq<(TokenDataView, Seq<ExprView>)>),
    Enum(Seq<(TokenDataView, Seq<ExprView>)>),
}

/// Mathematical model of a [`Declaration`].
pub enum DeclarationView {
    TypeDecl { name: TokenDataView, t: Seq<ExprView> },
}

impl View for NumberType {
    type V = NumberTypeView;

    open spec fn view(&self) -> NumberTypeView {
        match self {
            NumberType::Int(n, d) => NumberTypeView::Int(*n, d@),
            NumberType::Float(d) => NumberTypeView::Float(d@),
        }
    }
}

impl View for Literal {
    type V = LiteralView;

    open spec fn view(&self) -> LiteralView {
        match self {
            Literal::Number(n) => LiteralView::Number(n@),
            Literal::String(s, d) => LiteralView::String(s@, d@),
            Literal::Boolean(b, d) => LiteralView::Boolean(*b, d@),
        }
    }
}

/// The model of an expression.
pub open spec fn view_expr(e: Expr) -> ExprView
    decreases e,
{
    match e {
        Expr::Identifier(d) => ExprView::Identifier(d@),
        Expr::Literal(l) => ExprView::Literal(l@),
        Expr::Regex(d) => ExprView::Regex(d@),
        Expr::Annotation(d, args) => ExprView::Annotation(
            d@,
            Seq::new(
                args.len() as nat,
                |i: int|
                    if 0 <= i < args.len() {
                        Seq::new(
                            args[i].len() as nat,
                            |j: int|
                                if 0 <= j < args[i].len() {
                                    view_expr(args[i][j])
                                } else {
                                    arbitrary()
                                },
                        )
                    } else {
                        arbitrary()
                    },
            ),
        ),
        Expr::Not(inner) => ExprView::Not(Box::new(view_expr(*inner))),
        Expr::FieldAccess(d) => ExprView::FieldAccess(d@),
        Expr::BinaryExpr(op, pair) => ExprView::BinaryExpr(
            op,
            Box::new(view_expr(pair.0)),
            Box::new(view_expr(pair.1)),
        ),
        Expr::List(items) => ExprView::List(
            Seq::new(
                items.len() as nat,
                |i: int|
                    if 0 <= i < items.len() {
                        Seq::new(
                            items[i].len() as nat,
                            |j: int|
                                if 0 <= j < items[i].len() {
                                    view_expr(items[i][j])
                                } else {
                                    arbitrary()
                                },
                        )
                    } else {
                        arbitrary()
                    },
            ),
        ),
        Expr::SetOf(items) => ExprView::SetOf(
            Seq::new(
                items.len() as nat,
                |i: int|
                    if 0 <= i < items.len() {
                        Seq::new(
                            items[i].len() as nat,
                            |j: int|
                                if 0 <= j < items[i].len() {
                                    view_expr(items[i][j])
                                } else {
                                    arbitrary()
                                },
                        )
                    } else {
                        arbitrary()
                    },
            ),
        ),
        Expr::Struct(fields) => ExprView::Struct(
            Seq::new(
                fields.len() as nat,
                |i: int|
                    if 0 <= i < fields.len() {
                        (
                            fields[i].0@,
                            Seq::new(
                                fields[i].1.len() as nat,
                                |j: int|
                                    if 0 <= j < fields[i].1.len() {
                                        view_expr(fields[i].1[j])
                                    } else {
                                        arbitrary()
                                    },
                            ),
                        )
                    } else {
                        arbitrary()
                    },
            ),
        ),
        Expr::Enum(fields) => ExprView::Enum(
            Seq::new(
                fields.len() as nat,
                |i: int|
                    if 0 <= i < fields.len() {
                        (
                            fields[i].0@,
                            Seq::new(
                                fields[i].1.len() as nat,
                                |j: int|
                                    if 0 <= j < fields[i].1.len() {
                                        view_expr(fields[i].1[j])
                                    } else {
                                        arbitrary()
                                    },
                            ),
                        )
                    } else {
                        arbitrary()
                    },
            ),
        ),
    }
}

impl View for Expr {
    type V = ExprView;

    open spec fn view(&self) -> ExprView {
        view_expr(*self)
    }
}

/// The model of a sequence of expressions.
pub open spec fn view_exprs(exprs: Seq<Expr>) -> Seq<ExprView> {
    exprs.map_values(|e: Expr| view_expr(e))
}

/// The model of a type list.
pub open spec fn view_type_list(list: Seq<Vec<Expr>>) -> Seq<Seq<ExprView>> {
    list.map_values(|a: Vec<Expr>| view_exprs(a@))
}

/// The model of the fields of a struct or an enum.
pub open spec fn view_fields(fields: Seq<KeyValExpr>) -> Seq<(TokenDataView, Seq<ExprView>)> {
    fields.map_values(|f: KeyValExpr| (f.0@, view_exprs(f.1@)))
}

impl View for Declaration {
    type V = DeclarationView;

    open spec fn view(&self) -> DeclarationView {
        match self {
            Declaration::TypeDecl { name, t } => DeclarationView::TypeDecl {
                name: name@,
                t: view_exprs(t@),
            },
        }
    }
}

/// The model of a sequence of declarations.
pub open spec fn view_declarations(decls: Seq<Declaration>) -> Seq<DeclarationView> {
    decls.map_values(|d: Declaration| d@)
}

/// The models of the compound expressions, over the models of their parts.
pub proof fn lemma_view_compound(e: Expr)
    ensures
        e matches Expr::Annotation(d, args) ==> view_expr(e) == ExprView::Annotation(
            d@,
            view_type_list(args@),
        ),
        e matches Expr::List(items) ==> view_expr(e) == ExprView::List(view_type_list(items@)),
        e matches Expr::SetOf(items) ==> view_expr(e) == ExprView::SetOf(view_type_list(items@)),
        e matches Expr::Struct(fields) ==> view_expr(e) == ExprView::Struct(view_fields(fields@)),
        e matches Expr::Enum(fields) ==> view_expr(e) == ExprView::Enum(view_fields(fields@)),
{
    match e {
        Expr::Annotation(d, args) => {
            assert(view_expr(e)->Annotation_1 =~~= view_type_list(args@));
        },
        Expr::List(items) => {
            assert(view_expr(e)->List_0 =~~= view_type_list(items@));
        },
        Expr::SetOf(items) => {
            assert(view_expr(e)->SetOf_0 =~~= view_type_list(items@));
        },
        Expr::Struct(fields) => {
            assert(view_expr(e)->Struct_0 =~~= view_fields(fields@));
        },
        Expr::Enum(fields) => {
            assert(view_expr(e)->Enum_0 =~~= view_fields(fields@));
        },
        _ => {},
    }
}

} // verus!
