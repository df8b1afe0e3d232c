use xenomorph::parser::parse;
use xenomorph::parser_expr::{Declaration, Expr, Literal, NumberType};
use xenomorph::tokens::TokenData;

fn printed(src: &str) -> Vec<String> {
    let (decls, errors, _) = parse(src);
    assert_eq!(errors, vec![], "{}", src);
    decls.iter().map(|d| d.render()).collect()
}

fn td(v: &str) -> TokenData {
    TokenData { v: v.to_string(), l: 1, c: 1 }
}

#[test]
fn declaration_with_alternatives() {
    assert_eq!(printed("type X = a b c;"), vec!["type X = a | b | c"]);
    assert_eq!(printed("type A = 1; type B = x;"), vec!["type A = 1: Int", "type B = x"]);
}

#[test]
fn declaration_without_clauses() {
    let empty = Declaration::TypeDecl { name: td("E"), t: vec![] };
    assert_eq!(empty.render(), "type E = ");
}

#[test]
fn binary_expressions_in_parentheses() {
    assert_eq!(printed("type X = a + b - c;"), vec!["type X = ((a + b) - c)"]);
    assert_eq!(
        printed("type X = a | b & c * d ^ e \\ f .. g <> h;"),
        vec!["type X = (((((((a | b) + c) * d) ^ e) - f) .. g) <> h)"]
    );
}

#[test]
fn literals_as_printed() {
    assert_eq!(
        printed("type X = 42 1.50 true false \"s t\" /r+/ $f !g;"),
        vec!["type X = 42: Int | 1.50: Float | true | false | \"s t\" | /r+/ | $f | !g"]
    );
    let minimum = Literal::Number(NumberType::Int(i64::MIN, td("x")));
    assert_eq!(minimum.render(), "-9223372036854775808: Int");
    let negative = Literal::Number(NumberType::Int(-7, td("x")));
    assert_eq!(negative.render(), "-7: Int");
    let zero = Literal::Number(NumberType::Int(0, td("x")));
    assert_eq!(zero.render(), "0: Int");
}

#[test]
fn lists_and_sets_as_printed() {
    assert_eq!(printed("type X = [a, b c];"), vec!["type X = [ a,  b c]"]);
    assert_eq!(printed("type X = [];"), vec!["type X = []"]);
    assert_eq!(printed("type X = set [a, b];"), vec!["type X = { a,  b}"]);
}

#[test]
fn structs_and_enums_as_printed() {
    assert_eq!(printed("type X = { a: b, c: d e };"), vec!["type X = {\na: b,\n, c: d e,\n}\n"]);
    assert_eq!(printed("type X = {};"), vec!["type X = {\n}\n"]);
    assert_eq!(printed("type X = enum { a: b, c: d };"), vec!["type X = enum {a( b), c( d)}"]);
}

#[test]
fn annotations_as_printed() {
    assert_eq!(printed("type X = @min(1) @tag;"), vec!["type X = @min( 1: Int) | @tag()"]);
    assert_eq!(printed("type X = @len(1, 2);"), vec!["type X = @len( 1: Int,  2: Int)"]);
}

#[test]
fn nested_expression_as_printed() {
    let e = Expr::Not(Box::new(Expr::List(vec![vec![Expr::Identifier(td("a"))]])));
    assert_eq!(e.render(), "![ a]");
}
