use xenomorph::parser::{parse, ParseError, Parser};
use xenomorph::parser_expr::{BinaryExprType, Declaration, Expr, Literal, NumberType};
use xenomorph::semantic::analyze;
use xenomorph::tokens::{Token, TokenData, TokenVariant};

fn td(v: &str, l: usize, c: usize) -> TokenData {
    TokenData { v: v.to_string(), l, c }
}

fn ident(v: &str, l: usize, c: usize) -> Expr {
    Expr::Identifier(td(v, l, c))
}

fn integer(n: i64, v: &str, l: usize, c: usize) -> Expr {
    Expr::Literal(Literal::Number(NumberType::Int(n, td(v, l, c))))
}

fn binary(op: BinaryExprType, left: Expr, right: Expr) -> Expr {
    Expr::BinaryExpr(op, Box::new((left, right)))
}

fn body_of(src: &str) -> Vec<Expr> {
    let (mut decls, errors, _) = parse(src);
    assert_eq!(errors, vec![], "{}", src);
    assert_eq!(decls.len(), 1, "{}", src);
    match decls.remove(0) {
        Declaration::TypeDecl { t, .. } => t,
    }
}

fn errors_of(src: &str) -> Vec<ParseError> {
    parse(src).1
}

fn name_of(d: &Declaration) -> &str {
    match d {
        Declaration::TypeDecl { name, .. } => name.v.as_str(),
    }
}

#[test]
fn empty_text_parses_to_nothing() {
    let (decls, errors, tokens) = parse("");
    assert_eq!(decls, vec![]);
    assert_eq!(errors, vec![]);
    assert_eq!(tokens, vec![]);
}

#[test]
fn simple_declaration() {
    let (decls, errors, tokens) = parse("type A = 1;");
    assert_eq!(errors, vec![]);
    assert_eq!(tokens.len(), 5);
    assert_eq!(
        decls,
        vec![Declaration::TypeDecl { name: td("A", 1, 6), t: vec![integer(1, "1", 1, 10)] }]
    );
}

#[test]
fn last_declaration_is_not_dropped() {
    let (decls, errors, _) = parse("type A = 1; type B = 2;");
    assert_eq!(errors, vec![]);
    assert_eq!(decls.len(), 2);
    assert_eq!(name_of(&decls[0]), "A");
    assert_eq!(name_of(&decls[1]), "B");
}

#[test]
fn recovery_resumes_at_next_type() {
    let (decls, errors, _) = parse("type A = 1; type B = ; type C = 2;");
    assert_eq!(decls.len(), 2);
    assert_eq!(name_of(&decls[0]), "A");
    assert_eq!(name_of(&decls[1]), "C");
    assert_eq!(
        errors,
        vec![ParseError {
            message: "Unexpected expression token \";\" on line:1 column:22".to_string(),
            location: Some(td(";", 1, 22)),
        }]
    );
}

#[test]
fn every_error_is_collected() {
    let (decls, errors, _) = parse("type = 1; x y; type B = 2; type C 3; type D = [1;");
    assert_eq!(decls.len(), 1);
    assert_eq!(name_of(&decls[0]), "B");
    let messages: Vec<&str> = errors.iter().map(|e| e.message.as_str()).collect();
    assert_eq!(
        messages,
        vec![
            "Expected Identifier at \"=\" on line:1 column:6",
            "Expected 'type' at \"x\" on line:1 column:11, instead found Identifier.",
            "Expected Eq at \"3\" on line:1 column:35",
            "Expected RBracket at \";\" on line:1 column:49",
        ]
    );
}

#[test]
fn recovery_stops_behind_semicolon() {
    let (decls, errors, _) = parse("type A = ] x y ; type B = 2;");
    assert_eq!(decls.len(), 1);
    assert_eq!(name_of(&decls[0]), "B");
    assert_eq!(errors.len(), 1);
    assert_eq!(errors[0].message, "Unexpected expression token \"]\" on line:1 column:10");
}

#[test]
fn missing_semicolon_at_end_of_input() {
    let (decls, errors, _) = parse("type A = 1");
    assert_eq!(decls, vec![]);
    assert_eq!(
        errors,
        vec![ParseError { message: "Unexpected end of input".to_string(), location: None }]
    );
}

#[test]
fn declaration_must_start_with_type() {
    let errors = errors_of("A = 1;");
    assert_eq!(
        errors,
        vec![ParseError {
            message: "Expected 'type' at \"A\" on line:1 column:1, instead found Identifier."
                .to_string(),
            location: Some(td("A", 1, 1)),
        }]
    );
}

#[test]
fn left_to_right_reduction() {
    assert_eq!(
        body_of("type X = a + b - c;"),
        vec![binary(
            BinaryExprType::Remove,
            binary(BinaryExprType::Add, ident("a", 1, 10), ident("b", 1, 14)),
            ident("c", 1, 18),
        )]
    );
}

#[test]
fn every_binary_operator() {
    let cases = [
        ("|", BinaryExprType::Or),
        ("&", BinaryExprType::Union),
        ("*", BinaryExprType::Intersection),
        ("^", BinaryExprType::Xor),
        ("\\", BinaryExprType::Difference),
        ("..", BinaryExprType::Range),
        ("+", BinaryExprType::Add),
        ("-", BinaryExprType::Remove),
        ("<>", BinaryExprType::SymmetricDifference),
    ];
    for (text, op) in cases {
        let src = format!("type X = a {} b;", text);
        let body = body_of(&src);
        assert_eq!(body.len(), 1, "{}", src);
        match &body[0] {
            Expr::BinaryExpr(found, operands) => {
                assert_eq!(*found, op, "{}", src);
                assert_eq!(operands.0, ident("a", 1, 10));
            }
            other => panic!("{:?}", other),
        }
    }
}

#[test]
fn leading_or_is_dropped() {
    assert_eq!(body_of("type X = | a;"), vec![ident("a", 1, 12)]);
    assert_eq!(
        body_of("type X = | a | b;"),
        vec![binary(BinaryExprType::Or, ident("a", 1, 12), ident("b", 1, 16))]
    );
}

#[test]
fn binary_operator_needs_left_operand() {
    let errors = errors_of("type X = + a;");
    assert_eq!(
        errors,
        vec![ParseError {
            message: "Expected expression before binary operator at \"+\" on line:1 column:10"
                .to_string(),
            location: Some(td("+", 1, 10)),
        }]
    );
}

#[test]
fn operator_needs_right_operand() {
    let errors = errors_of("type X = a + | b;");
    assert_eq!(errors.len(), 1);
    assert_eq!(
        errors[0],
        ParseError {
            message: "Expected expression after operator at \"+\" on line:1 column:12".to_string(),
            location: Some(td("+", 1, 12)),
        }
    );
    let errors = errors_of("type X = ! | b;");
    assert_eq!(errors.len(), 1);
    assert_eq!(
        errors[0].message,
        "Expected expression after operator at \"!\" on line:1 column:10"
    );
}

#[test]
fn juxtaposed_clauses() {
    assert_eq!(body_of("type X = a b;"), vec![ident("a", 1, 10), ident("b", 1, 12)]);
}

#[test]
fn not_wraps_the_following_expression() {
    assert_eq!(body_of("type X = !a;"), vec![Expr::Not(Box::new(ident("a", 1, 11)))]);
    assert_eq!(
        body_of("type X = a !b;"),
        vec![ident("a", 1, 10), Expr::Not(Box::new(ident("b", 1, 13)))]
    );
}

#[test]
fn literals() {
    assert_eq!(
        body_of("type X = true false \"s t\" /r+/ $f 42;"),
        vec![
            Expr::Literal(Literal::Boolean(true, td("true", 1, 10))),
            Expr::Literal(Literal::Boolean(false, td("false", 1, 15))),
            Expr::Literal(Literal::String("s t".to_string(), td("s t", 1, 21))),
            Expr::Regex(td("r+", 1, 27)),
            Expr::FieldAccess(td("f", 1, 33)),
            integer(42, "42", 1, 35),
        ]
    );
}

#[test]
fn decimal_literal_keeps_its_text() {
    let body = body_of("type X = 1.5;");
    assert_eq!(body, vec![Expr::Literal(Literal::Number(NumberType::Float(td("1.5", 1, 10))))]);
    match &body[0] {
        Expr::Literal(Literal::Number(NumberType::Float(d))) => {
            assert_eq!(d.v.parse::<f64>(), Ok(1.5));
        }
        other => panic!("{:?}", other),
    }
}

#[test]
fn integer_literal_range() {
    assert_eq!(
        body_of("type X = 9223372036854775807;"),
        vec![integer(i64::MAX, "9223372036854775807", 1, 10)]
    );
    assert_eq!(body_of("type X = 007;"), vec![integer(7, "007", 1, 10)]);
    let errors = errors_of("type X = 9223372036854775808;");
    assert_eq!(
        errors,
        vec![ParseError {
            message:
                "Error parsing number: number too large to fit in target type, at 9223372036854775808"
                    .to_string(),
            location: Some(td("9223372036854775808", 1, 10)),
        }]
    );
}

#[test]
fn number_tokens_made_by_hand() {
    let mut parser = Parser::new(vec![]);
    let number = |v: &str| td(v, 1, 1);
    assert_eq!(parser.parse_number(number("-12")), Ok(integer(-12, "-12", 1, 1)));
    assert_eq!(parser.parse_number(number("+12")), Ok(integer(12, "+12", 1, 1)));
    assert_eq!(
        parser.parse_number(number("-9223372036854775808")),
        Ok(integer(i64::MIN, "-9223372036854775808", 1, 1))
    );
    let message = |r: Result<Expr, ParseError>| r.unwrap_err().message;
    assert_eq!(
        message(parser.parse_number(number("-9223372036854775809"))),
        "Error parsing number: number too small to fit in target type, at -9223372036854775809"
    );
    assert_eq!(
        message(parser.parse_number(number(""))),
        "Error parsing number: cannot parse integer from empty string, at "
    );
    assert_eq!(
        message(parser.parse_number(number("-"))),
        "Error parsing number: invalid digit found in string, at -"
    );
    assert_eq!(
        message(parser.parse_number(number("12a"))),
        "Error parsing number: invalid digit found in string, at 12a"
    );
    assert_eq!(
        message(parser.parse_number(number("1.2.3"))),
        "Error parsing number: invalid float literal, at 1.2.3"
    );
    assert_eq!(
        message(parser.parse_number(number(".5"))),
        "Error parsing number: invalid float literal, at .5"
    );
}

#[test]
fn lists_and_sets() {
    assert_eq!(
        body_of("type X = [a, b c];"),
        vec![Expr::List(vec![vec![ident("a", 1, 11)], vec![ident("b", 1, 14), ident("c", 1, 16)]])]
    );
    assert_eq!(body_of("type X = [];"), vec![Expr::List(vec![])]);
    assert_eq!(
        body_of("type X = set [a];"),
        vec![Expr::SetOf(vec![vec![ident("a", 1, 15)]])]
    );
    let errors = errors_of("type X = set a;");
    assert_eq!(errors[0].message, "Expected LBracket at \"a\" on line:1 column:14");
}

#[test]
fn structs_and_enums() {
    assert_eq!(
        body_of("type X = { a: b, c: d e };"),
        vec![Expr::Struct(vec![
            (td("a", 1, 12), vec![ident("b", 1, 15)]),
            (td("c", 1, 18), vec![ident("d", 1, 21), ident("e", 1, 23)]),
        ])]
    );
    assert_eq!(body_of("type X = {};"), vec![Expr::Struct(vec![])]);
    assert_eq!(
        body_of("type X = enum { a: b };"),
        vec![Expr::Enum(vec![(td("a", 1, 17), vec![ident("b", 1, 20)])])]
    );
    let errors = errors_of("type X = { a b };");
    assert_eq!(errors[0].message, "Expected Colon at \"b\" on line:1 column:14");
    let errors = errors_of("type X = { 1: b };");
    assert_eq!(errors[0].message, "Expected Identifier at \"1\" on line:1 column:12");
}

#[test]
fn annotations() {
    assert_eq!(
        body_of("type X = @min(1) @tag;"),
        vec![
            Expr::Annotation(td("min", 1, 11), vec![vec![integer(1, "1", 1, 15)]]),
            Expr::Annotation(td("tag", 1, 19), vec![]),
        ]
    );
    assert_eq!(
        body_of("type X = @len(1, 2);"),
        vec![Expr::Annotation(
            td("len", 1, 11),
            vec![vec![integer(1, "1", 1, 15)], vec![integer(2, "2", 1, 18)]],
        )]
    );
    let errors = errors_of("type X = @(1);");
    assert_eq!(errors[0].message, "Expected Identifier at \"(\" on line:1 column:11");
}

#[test]
fn nested_forms() {
    let body = body_of("type X = { a: [ { b: set [1..2] } ], c: @k(!x) };");
    assert_eq!(body.len(), 1);
    match &body[0] {
        Expr::Struct(fields) => {
            assert_eq!(fields.len(), 2);
            assert_eq!(fields[0].0, td("a", 1, 12));
            assert_eq!(
                fields[1].1,
                vec![Expr::Annotation(
                    td("k", 1, 42),
                    vec![vec![Expr::Not(Box::new(ident("x", 1, 45)))]],
                )]
            );
        }
        other => panic!("{:?}", other),
    }
}

#[test]
fn text_that_does_not_lex() {
    let (decls, errors, tokens) = parse("type A = 1;\ntype B = #;");
    assert_eq!(decls, vec![]);
    assert_eq!(tokens, vec![]);
    assert_eq!(
        errors,
        vec![ParseError {
            message: "Token not recognized".to_string(),
            location: Some(td("", 2, 10)),
        }]
    );
}

#[test]
fn parser_on_given_tokens() {
    let tokens: Vec<Token> = vec![
        (TokenVariant::Type, td("type", 1, 1)),
        (TokenVariant::Identifier, td("A", 1, 6)),
        (TokenVariant::Eq, td("=", 1, 8)),
        (TokenVariant::Identifier, td("b", 1, 10)),
        (TokenVariant::Semicolon, td(";", 1, 11)),
    ];
    let mut parser = Parser::new(tokens);
    assert!(parser.is_not_eof());
    assert_eq!(parser.peek().map(|t| t.0), Some(TokenVariant::Type));
    let (decls, errors) = parser.parse();
    assert_eq!(errors, vec![]);
    assert_eq!(
        decls,
        vec![Declaration::TypeDecl { name: td("A", 1, 6), t: vec![ident("b", 1, 10)] }]
    );
    assert!(!parser.is_not_eof());
    assert_eq!(parser.current, 5);
    assert_eq!(parser.peek(), None);
    assert_eq!(
        parser.next(),
        Err(ParseError { message: "Unexpected end of input".to_string(), location: None })
    );
}

#[test]
fn location_of_the_last_token() {
    let mut parser = Parser::new(vec![
        (TokenVariant::Type, td("type", 3, 7)),
        (TokenVariant::Identifier, td("Abc", 3, 12)),
    ]);
    parser.next().unwrap();
    assert_eq!(parser.print_location(), "3:7:type");
    parser.next().unwrap();
    assert_eq!(parser.print_location(), "3:12:Abc");
}

#[test]
fn operator_symbols() {
    assert_eq!(BinaryExprType::Union.symbol(), "+");
    assert_eq!(BinaryExprType::Intersection.symbol(), "*");
    assert_eq!(BinaryExprType::Difference.symbol(), "-");
    assert_eq!(BinaryExprType::SymmetricDifference.symbol(), "<>");
    assert_eq!(BinaryExprType::Or.symbol(), "|");
    assert_eq!(BinaryExprType::Xor.symbol(), "^");
    assert_eq!(BinaryExprType::Range.symbol(), "..");
    assert_eq!(BinaryExprType::Add.symbol(), "+");
    assert_eq!(BinaryExprType::Remove.symbol(), "-");
}

#[test]
fn expect_consumes_the_wrong_token() {
    let mut parser = Parser::new(vec![(TokenVariant::Comma, td(",", 3, 4))]);
    assert_eq!(
        parser.expect(TokenVariant::Colon),
        Err(ParseError {
            message: "Expected Colon at \",\" on line:3 column:4".to_string(),
            location: None,
        })
    );
    assert_eq!(parser.current, 1);
}

#[test]
fn recovery_point_by_hand() {
    let kinds = [
        TokenVariant::Identifier,
        TokenVariant::Comma,
        TokenVariant::Semicolon,
        TokenVariant::Identifier,
        TokenVariant::Type,
    ];
    let tokens: Vec<Token> = kinds.iter().map(|k| (*k, td("x", 1, 1))).collect();
    let mut parser = Parser::new(tokens);
    parser.recover_to_declaration_boundary();
    assert_eq!(parser.current, 3);
    parser.recover_to_declaration_boundary();
    assert_eq!(parser.current, 4);
    parser.recover_to_declaration_boundary();
    assert_eq!(parser.current, 4);
}

#[test]
fn parse_error_constructors() {
    let d = td("x", 2, 3);
    let token: Token = (TokenVariant::Identifier, td("y", 4, 5));
    assert_eq!(
        ParseError::new("m".to_string()),
        ParseError { message: "m".to_string(), location: None }
    );
    assert_eq!(ParseError::new_with_location("m".to_string(), &d).location, Some(td("x", 2, 3)));
    assert_eq!(
        ParseError::new_with_move_loc("m".to_string(), td("x", 2, 3)).location,
        Some(td("x", 2, 3))
    );
    assert_eq!(ParseError::new_with_token("m".to_string(), &token).location, Some(td("y", 4, 5)));
    assert_eq!(ParseError::new("m".to_string()).describe(), "m");
}

#[test]
fn conditional_chain_passes() {
    let (decls, errors, _) = parse("type X = @if(1) | @elseif(2) | @else(3);");
    assert_eq!(errors, vec![]);
    assert_eq!(analyze(&decls), Ok(()));
    let (decls, errors, _) = parse("type X = @if(1) @elseif(2) @elseif(3) @else(4) @else;");
    assert_eq!(errors, vec![]);
    assert_eq!(analyze(&decls), Ok(()));
}

#[test]
fn elseif_without_if_fails() {
    let (decls, errors, _) = parse("type X = @elseif(1);");
    assert_eq!(errors, vec![]);
    let error = analyze(&decls).unwrap_err();
    assert_eq!(
        error.message,
        "Semantic error: 'elseif' annotation must follow an '@if' or '@elseif'"
    );
    assert_eq!(error.location, td("elseif", 1, 11));
}

#[test]
fn chain_is_broken_by_other_clauses() {
    let (decls, _, _) = parse("type X = @if(1) a @else(2);");
    assert_eq!(analyze(&decls).unwrap_err().location, td("else", 1, 20));
    let (decls, _, _) = parse("type X = @if(1) @min(2) @elseif(3);");
    assert_eq!(analyze(&decls).unwrap_err().location, td("elseif", 1, 26));
    let (decls, _, _) = parse("type A = @if(1); type B = @else(2);");
    assert_eq!(analyze(&decls).unwrap_err().location, td("else", 1, 28));
}

#[test]
fn check_does_not_look_inside_clauses() {
    let (decls, errors, _) = parse("type X = [ @else(1) ] { a: @elseif(2) };");
    assert_eq!(errors, vec![]);
    assert_eq!(analyze(&decls), Ok(()));
    assert_eq!(analyze(&vec![]), Ok(()));
}

#[test]
fn many_declarations() {
    let mut src = String::new();
    for i in 0..500 {
        src.push_str(&format!("type T{} = {{ a: [1, 2, 3], b: @min({}) | x }}; // {}\n", i, i, i));
    }
    let (decls, errors, tokens) = parse(&src);
    assert_eq!(errors, vec![]);
    assert_eq!(decls.len(), 500);
    assert_eq!(tokens.len(), 500 * 25);
    assert_eq!(name_of(&decls[499]), "T499");
    assert_eq!(tokens[tokens.len() - 1].1.l, 500);
    assert_eq!(analyze(&decls), Ok(()));
}

#[test]
fn deeply_nested_lists() {
    let depth = 200;
    let src = format!("type D = {}x{};", "[".repeat(depth), "]".repeat(depth));
    let (decls, errors, _) = parse(&src);
    assert_eq!(errors, vec![]);
    assert_eq!(decls.len(), 1);
    let unclosed = format!("type D = {}x;", "[".repeat(depth));
    let (decls, errors, _) = parse(&unclosed);
    assert_eq!(decls.len(), 0);
    assert_eq!(errors.len(), 1);
}
