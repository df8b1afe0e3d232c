use xenomorph::backend::{
    analyze_text, definition_in, diagnostics, hover_in, Analysis, Backend,
};
use xenomorph::parser::parse;
use xenomorph::queries::{Position, Range};
use xenomorph::tokens::TokenVariant;

fn uri(name: &str) -> String {
    format!("file:///{}", name)
}

fn at(line: usize, character: usize) -> Position {
    Position { line, character }
}

fn span(line: usize, from: usize, to: usize) -> Range {
    Range { start: at(line, from), end: at(line, to) }
}

fn names(analysis: &Analysis) -> Vec<String> {
    analysis
        .declarations
        .iter()
        .map(|d| match d {
            xenomorph::parser_expr::Declaration::TypeDecl { name, .. } => name.v.clone(),
        })
        .collect()
}

#[test]
fn analysis_is_that_of_the_text() {
    let analysis = analyze_text("type A = 1; type B = ;");
    let (declarations, errors, tokens) = parse("type A = 1; type B = ;");
    assert_eq!(analysis, Analysis { tokens, declarations, errors });
    assert_eq!(names(&analysis), vec!["A"]);
    assert_eq!(analysis.errors.len(), 1);
    assert_eq!(analysis.tokens.len(), 9);
}

#[test]
fn unknown_document_has_no_analysis() {
    let mut backend = Backend::new();
    assert!(!backend.is_open(&uri("a")));
    assert_eq!(backend.parse_document(&uri("a")), None);
    assert_eq!(backend.validate_document(&uri("a")), None);
    assert_eq!(backend.hover(&uri("a"), at(0, 0)), None);
    assert_eq!(backend.goto_definition(&uri("a"), at(0, 0)), None);
}

#[test]
fn open_then_query() {
    let mut backend = Backend::new();
    backend.did_open(uri("a"), "type A = 1;".to_string());
    assert!(backend.is_open(&uri("a")));
    let analysis = backend.parse_document(&uri("a")).unwrap();
    assert_eq!(names(analysis), vec!["A"]);
    assert_eq!(analysis.errors, vec![]);
    assert_eq!(backend.validate_document(&uri("a")), Some(vec![]));
}

#[test]
fn change_invalidates_the_analysis() {
    let mut backend = Backend::new();
    backend.did_open(uri("a"), "type A = 1;".to_string());
    assert_eq!(names(backend.parse_document(&uri("a")).unwrap()), vec!["A"]);
    backend.did_change(&uri("a"), vec!["type B = 2; type C = 3;".to_string()]);
    assert_eq!(names(backend.parse_document(&uri("a")).unwrap()), vec!["B", "C"]);
    backend.did_change(&uri("a"), vec!["type X = ;".to_string()]);
    let analysis = backend.parse_document(&uri("a")).unwrap();
    assert_eq!(names(analysis), Vec::<String>::new());
    assert_eq!(analysis.errors.len(), 1);
}

#[test]
fn text_of_a_document() {
    let mut backend = Backend::new();
    assert_eq!(backend.text(&uri("a")), None);
    backend.did_open(uri("a"), "type A = 1;".to_string());
    assert_eq!(backend.text(&uri("a")), Some("type A = 1;".to_string()));
    backend.did_change(&uri("a"), vec!["x".to_string(), "y".to_string()]);
    assert_eq!(backend.text(&uri("a")), Some("y".to_string()));
    backend.did_close(&uri("a"));
    assert_eq!(backend.text(&uri("a")), None);
}

#[test]
fn last_change_wins() {
    let mut backend = Backend::new();
    backend.did_open(uri("a"), "type A = 1;".to_string());
    backend.did_change(
        &uri("a"),
        vec!["type B = 2;".to_string(), "type C = 3;".to_string(), "type D = 4;".to_string()],
    );
    assert_eq!(names(backend.parse_document(&uri("a")).unwrap()), vec!["D"]);
}

#[test]
fn change_without_texts_keeps_the_text() {
    let mut backend = Backend::new();
    backend.did_open(uri("a"), "type A = 1;".to_string());
    backend.did_change(&uri("a"), vec![]);
    assert_eq!(names(backend.parse_document(&uri("a")).unwrap()), vec!["A"]);
}

#[test]
fn change_of_unknown_document_opens_nothing() {
    let mut backend = Backend::new();
    backend.did_change(&uri("a"), vec!["type A = 1;".to_string()]);
    assert!(!backend.is_open(&uri("a")));
    assert_eq!(backend.parse_document(&uri("a")), None);
}

#[test]
fn close_forgets_the_document() {
    let mut backend = Backend::new();
    backend.did_open(uri("a"), "type A = 1;".to_string());
    assert!(backend.parse_document(&uri("a")).is_some());
    backend.did_close(&uri("a"));
    assert!(!backend.is_open(&uri("a")));
    assert_eq!(backend.parse_document(&uri("a")), None);
    assert_eq!(backend.validate_document(&uri("a")), None);
    assert_eq!(backend.hover(&uri("a"), at(0, 0)), None);
    assert_eq!(backend.goto_definition(&uri("a"), at(0, 5)), None);
    backend.did_close(&uri("a"));
    assert!(!backend.is_open(&uri("a")));
}

#[test]
fn reopening_replaces_the_text() {
    let mut backend = Backend::new();
    backend.did_open(uri("a"), "type A = 1;".to_string());
    assert_eq!(names(backend.parse_document(&uri("a")).unwrap()), vec!["A"]);
    backend.did_open(uri("a"), "type B = 1;".to_string());
    assert_eq!(names(backend.parse_document(&uri("a")).unwrap()), vec!["B"]);
    backend.did_close(&uri("a"));
    backend.did_open(uri("a"), "type C = 1;".to_string());
    assert_eq!(names(backend.parse_document(&uri("a")).unwrap()), vec!["C"]);
}

#[test]
fn documents_do_not_disturb_each_other() {
    let mut backend = Backend::new();
    backend.did_open(uri("a"), "type A = 1;".to_string());
    backend.did_open(uri("b"), "type B = 1;".to_string());
    backend.did_open(uri("c"), "type C = 1;".to_string());
    assert_eq!(names(backend.parse_document(&uri("b")).unwrap()), vec!["B"]);
    backend.did_change(&uri("a"), vec!["type A2 = 1;".to_string()]);
    backend.did_close(&uri("c"));
    assert_eq!(names(backend.parse_document(&uri("a")).unwrap()), vec!["A2"]);
    assert_eq!(names(backend.parse_document(&uri("b")).unwrap()), vec!["B"]);
    assert!(!backend.is_open(&uri("c")));
    backend.did_close(&uri("a"));
    assert_eq!(names(backend.parse_document(&uri("b")).unwrap()), vec!["B"]);
}

#[test]
fn diagnostics_of_parse_errors() {
    let mut backend = Backend::new();
    backend.did_open(uri("a"), "type A = 1;\ntype B = ;\ntype C 2;".to_string());
    let found = backend.validate_document(&uri("a")).unwrap();
    assert_eq!(found.len(), 2);
    assert_eq!(found[0].range, span(1, 9, 10));
    assert_eq!(found[0].message, "Unexpected expression token \";\" on line:2 column:10");
    assert_eq!(found[0].source, "xenomorph");
    assert_eq!(found[1].range, span(0, 0, 1));
    assert_eq!(found[1].message, "Expected Eq at \"2\" on line:3 column:8");
}

#[test]
fn diagnostics_clear_after_a_fix() {
    let mut backend = Backend::new();
    backend.did_open(uri("a"), "type A = ;".to_string());
    assert_eq!(backend.validate_document(&uri("a")).unwrap().len(), 1);
    backend.did_change(&uri("a"), vec!["type A = 1;".to_string()]);
    assert_eq!(backend.validate_document(&uri("a")), Some(vec![]));
}

#[test]
fn diagnostic_of_a_lexer_error() {
    let found = diagnostics(&analyze_text("type A = 1;\n  #"));
    assert_eq!(found.len(), 1);
    assert_eq!(found[0].range, span(1, 2, 2));
    assert_eq!(found[0].message, "Token not recognized");
}

#[test]
fn semantic_error_is_one_more_diagnostic() {
    let found = diagnostics(&analyze_text("type A = ;\ntype X = @else(1);\ntype Y = @elseif;"));
    assert_eq!(found.len(), 2);
    assert_eq!(found[0].message, "Unexpected expression token \";\" on line:1 column:10");
    assert_eq!(found[1].range, span(1, 10, 14));
    assert_eq!(
        found[1].message,
        "Semantic error: 'else' annotation must follow an '@if' or '@elseif'"
    );
    assert_eq!(diagnostics(&analyze_text("type X = @if(1) @else(2);")), vec![]);
}

#[test]
fn hover_on_a_document() {
    let mut backend = Backend::new();
    backend.did_open(uri("a"), "type Foo = bar;".to_string());
    let hover = backend.hover(&uri("a"), at(0, 1)).unwrap();
    assert_eq!(hover.contents, "**type**\n\nDefines a new type in Xenomorph.");
    assert_eq!(hover.range, span(0, 0, 4));
    let hover = backend.hover(&uri("a"), at(0, 6)).unwrap();
    assert_eq!(hover.contents, "**Foo**\n\nIdentifier");
    assert_eq!(hover.range, span(0, 5, 8));
    assert_eq!(backend.hover(&uri("a"), at(0, 9)), None);
    assert_eq!(backend.hover(&uri("a"), at(0, 4)), None);
    assert_eq!(backend.hover(&uri("a"), at(3, 0)), None);
    let analysis = analyze_text("set [a]");
    assert_eq!(hover_in(&analysis, at(0, 0)).unwrap().range, span(0, 0, 3));
}

#[test]
fn definition_of_an_identifier() {
    let mut backend = Backend::new();
    backend.did_open(uri("a"), "type A = 1;\ntype B = A;\ntype A = 2;".to_string());
    assert_eq!(backend.goto_definition(&uri("a"), at(1, 9)), Some(span(0, 5, 6)));
    assert_eq!(backend.goto_definition(&uri("a"), at(2, 5)), Some(span(0, 5, 6)));
    assert_eq!(backend.goto_definition(&uri("a"), at(1, 5)), Some(span(1, 5, 6)));
    assert_eq!(backend.goto_definition(&uri("a"), at(1, 0)), None);
    assert_eq!(backend.goto_definition(&uri("a"), at(0, 9)), None);
    assert_eq!(backend.goto_definition(&uri("a"), at(9, 9)), None);
    let analysis = analyze_text("type A = Missing;");
    assert_eq!(definition_in(&analysis, at(0, 10)), None);
}

#[test]
fn definition_survives_errors_elsewhere() {
    let analysis = analyze_text("type A = 1;\ntype B = ;\ntype C = A;");
    assert_eq!(definition_in(&analysis, at(2, 9)), Some(span(0, 5, 6)));
}

#[test]
fn completion_on_a_document() {
    let mut backend = Backend::new();
    backend.did_open(uri("a"), "type A = { a: @x };".to_string());
    let provided = vec!["Hello".to_string(), "World".to_string()];
    let labels = |backend: &mut Backend, doc: &str, position: Position| -> Vec<String> {
        backend.completion(&uri(doc), position, &provided).into_iter().map(|i| i.label).collect()
    };
    assert_eq!(
        labels(&mut backend, "a", at(0, 14)),
        vec![
            "type", "validator", "set", "enum", "object literal", "min", "max", "len", "minlen",
            "maxlen", "if", "else", "Hello", "World",
        ]
    );
    assert_eq!(
        labels(&mut backend, "a", at(0, 0)),
        vec!["type", "validator", "set", "enum", "object literal", "Hello", "World"]
    );
    assert_eq!(
        labels(&mut backend, "unknown", at(0, 14)),
        vec!["type", "validator", "set", "enum", "object literal", "Hello", "World"]
    );
    assert_eq!(backend.completion(&uri("a"), at(0, 9), &vec![]).len(), 9);
}

#[test]
fn analysis_is_kept_between_queries() {
    let mut backend = Backend::new();
    backend.did_open(uri("a"), "type A = 1;".to_string());
    let first: Vec<TokenVariant> =
        backend.parse_document(&uri("a")).unwrap().tokens.iter().map(|t| t.0).collect();
    let second: Vec<TokenVariant> =
        backend.parse_document(&uri("a")).unwrap().tokens.iter().map(|t| t.0).collect();
    assert_eq!(first, second);
    assert_eq!(first.len(), 5);
}
