//! The semantic check: conditional annotations must form chains.
//!
//! Within the clauses of one declaration, `@elseif` and `@else` may only
//! follow an `@if` or another member of its chain. Any other clause ends the
//! chain. The check looks at the clauses themselves and not inside them.

use crate::parser_expr::{
    view_declarations, view_expr, view_exprs, Declaration, DeclarationView, Expr, ExprView,
};
use crate::tokens::{TokenData, TokenDataView};
use vstd::prelude::*;
use vstd::string::*;

verus! {

/// A conditional annotation outside a chain.
#[derive(Debug, PartialEq, Eq)]
pub struct SemanticError {
    pub message: String,
    pub location: TokenData,
}

/// Mathematical model of a [`SemanticError`].
pub struct SemanticErrorView {
    pub message: Seq<char>,
    pub location: TokenDataView,
}

impl View for SemanticError {
    type V = SemanticErrorView;

    open spec fn view(&self) -> SemanticErrorView {
        SemanticErrorView { message: self.message@, location: self.location@ }
    }
}

/// The error for the annotation `name` outside a chain.
pub open spec fn chain_error(name: TokenDataView) -> SemanticErrorView {
    SemanticErrorView {
        message: "Semantic error: '"@ + name.v + "' annotation must follow an '@if' or '@elseif'"@,
        location: name,
    }
}

/// The name of the first annotation in `exprs[i..]` that continues a chain
/// where there is none, `in_chain` telling whether a chain is open at `i`.
pub open spec fn first_violation(exprs: Seq<ExprView>, i: int, in_chain: bool) -> Option<
    TokenDataView,
>
    decreases exprs.len() - i,
{
    if i < 0 || i >= exprs.len() {
        None
    } else {
        match exprs[i] {
            ExprView::Annotation(name, _) => if name.v == "if"@ {
                first_violation(exprs, i + 1, true)
            } else if name.v == "elseif"@ || name.v == "else"@ {
                if in_chain {
                    first_violation(exprs, i + 1, true)
                } else {
                    Some(name)
                }
            } else {
                first_violation(exprs, i + 1, false)
            },
            _ => first_violation(exprs, i + 1, false),
        }
    }
}

/// The first violation among the clauses of a declaration.
pub open spec fn declaration_violation(d: DeclarationView) -> Option<TokenDataView> {
    match d {
        DeclarationView::TypeDecl { t, .. } => first_violation(t, 0, false),
    }
}

/// The first violation in `decls[i..]`.
pub open spec fn first_error(decls: Seq<DeclarationView>, i: int) -> Option<TokenDataView>
    decreases decls.len() - i,
{
    if i < 0 || i >= decls.len() {
        None
    } else {
        match declaration_violation(decls[i]) {
            Some(name) => Some(name),
            None => first_error(decls, i + 1),
        }
    }
}

/// Whether the text of `s` is that of `literal`.
fn text_is(s: &String, literal: &str) -> (r: bool)
    ensures
        r == (s@ == literal@),
{
    *s == String::from_str(literal)
}

fn err_chain(name: &TokenData) -> (e: SemanticError)
    ensures
        e@ == chain_error(name@),
{
    let mut message = String::from_str("Semantic error: '");
    message.append(name.v.as_str());
    message.append("' annotation must follow an '@if' or '@elseif'");
    assert(message@ =~= chain_error(name@).message);
    SemanticError { message, location: name.clone() }
}

/// Checks the clauses of one declaration.
pub fn validate_annotations(exprs: &Vec<Expr>) -> (r: Result<(), SemanticError>)
    ensures
        match first_violation(view_exprs(exprs@), 0, false) {
            None => r is Ok,
            Some(name) => r matches Err(e) && e@ == chain_error(name),
        },
{
    let mut valid_context = false;
    let mut i: usize = 0;
    while i < exprs.len()
        invariant
            i <= exprs@.len(),
            first_violation(view_exprs(exprs@), 0, false) == first_violation(
                view_exprs(exprs@),
                i as int,
                valid_context,
            ),
        decreases exprs@.len() - i,
    {
        assert(view_exprs(exprs@)[i as int] == view_expr(exprs@[i as int]));
        match &exprs[i] {
            Expr::Annotation(id, _) => {
                if text_is(&id.v, "if") {
                    valid_context = true;
                } else if text_is(&id.v, "elseif") || text_is(&id.v, "else") {
                    if !valid_context {
                        return Err(err_chain(id));
                    }
                } else {
                    valid_context = false;
                }
            },
            _ => {
                valid_context = false;
            },
        }
        i = i + 1;
    }
    Ok(())
}

/// Checks every declaration, in order, and reports the first annotation
/// that continues a chain where there is none.
pub fn analyze(ast: &Vec<Declaration>) -> (r: Result<(), SemanticError>)
    ensures
        match first_error(view_declarations(ast@), 0) {
            None => r is Ok,
            Some(name) => r matches Err(e) && e@ == chain_error(name),
        },
{
    let mut i: usize = 0;
    while i < ast.len()
        invariant
            i <= ast@.len(),
            first_error(view_declarations(ast@), 0) == first_error(
                view_declarations(ast@),
                i as int,
            ),
        decreases ast@.len() - i,
    {
        assert(view_declarations(ast@)[i as int] == ast@[i as int]@);
        match &ast[i] {
            Declaration::TypeDecl { t, .. } => {
                match validate_annotations(t) {
                    Ok(_) => {},
                    Err(e) => {
                        return Err(e);
                    },
                }
            },
        }
        i = i + 1;
    }
    Ok(())
}

} // verus!
