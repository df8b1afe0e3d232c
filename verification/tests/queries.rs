use xenomorph::lexer::Lexer;
use xenomorph::parser::ParseError;
use xenomorph::queries::{
    base_completions, completion_resolve, completions_for_kind, create_completion_item,
    error_diagnostic, find_token_at_position, get_context_completions, get_hover_for_token,
    push_plugin_completions, semantic_error_diagnostic, token_covers, token_range,
    token_to_position, CompletionItem, CompletionItemKind, Diagnostic, Position, Range,
};
use xenomorph::semantic::SemanticError;
use xenomorph::tokens::{Token, TokenData, TokenVariant};

fn lex(src: &str) -> Vec<Token> {
    Lexer::new(src).tokenize().unwrap()
}

fn at(line: usize, character: usize) -> Position {
    Position { line, character }
}

fn span(line: usize, from: usize, to: usize) -> Range {
    Range { start: at(line, from), end: at(line, to) }
}

fn td(v: &str, l: usize, c: usize) -> TokenData {
    TokenData { v: v.to_string(), l, c }
}

fn labels(items: &[CompletionItem]) -> Vec<&str> {
    items.iter().map(|i| i.label.as_str()).collect()
}

#[test]
fn position_is_zero_based() {
    assert_eq!(token_to_position(&td("abc", 1, 1)), at(0, 0));
    assert_eq!(token_to_position(&td("abc", 3, 7)), at(2, 6));
}

#[test]
fn range_spans_the_text() {
    assert_eq!(token_range(&td("abc", 3, 7)), span(2, 6, 9));
    assert_eq!(token_range(&td("", 1, 1)), span(0, 0, 0));
    assert_eq!(token_range(&td("héllo", 1, 2)), span(0, 1, 6));
}

#[test]
fn range_end_is_exclusive() {
    let d = td("abc", 2, 5);
    assert!(!token_covers(&d, at(1, 3)));
    assert!(token_covers(&d, at(1, 4)));
    assert!(token_covers(&d, at(1, 6)));
    assert!(!token_covers(&d, at(1, 7)));
    assert!(!token_covers(&d, at(0, 4)));
    assert!(!token_covers(&d, at(2, 4)));
}

#[test]
fn token_without_a_place_covers_nothing() {
    assert!(!token_covers(&td("abc", 0, 1), at(0, 0)));
    assert!(!token_covers(&td("abc", 1, 0), at(0, 0)));
    assert!(!token_covers(&td("", 1, 1), at(0, 0)));
}

#[test]
fn token_at_position() {
    let tokens = lex("type Ab = x;\n  @min");
    let kind = |line, character| {
        find_token_at_position(&tokens, at(line, character)).map(|t| t.0)
    };
    assert_eq!(kind(0, 0), Some(TokenVariant::Type));
    assert_eq!(kind(0, 3), Some(TokenVariant::Type));
    assert_eq!(kind(0, 4), None);
    assert_eq!(kind(0, 5), Some(TokenVariant::Identifier));
    assert_eq!(kind(0, 6), Some(TokenVariant::Identifier));
    assert_eq!(kind(0, 7), None);
    assert_eq!(kind(0, 11), Some(TokenVariant::Semicolon));
    assert_eq!(kind(0, 12), None);
    assert_eq!(kind(1, 2), Some(TokenVariant::At));
    assert_eq!(kind(1, 3), Some(TokenVariant::Identifier));
    assert_eq!(kind(2, 0), None);
    assert_eq!(find_token_at_position(&vec![], at(0, 0)), None);
}

#[test]
fn first_covering_token_wins() {
    let tokens: Vec<Token> = vec![
        (TokenVariant::Identifier, td("abc", 1, 1)),
        (TokenVariant::Number, td("12", 1, 2)),
    ];
    assert_eq!(find_token_at_position(&tokens, at(0, 1)), Some(&tokens[0]));
    assert_eq!(find_token_at_position(&tokens, at(0, 2)), Some(&tokens[0]));
}

#[test]
fn completion_item_is_a_snippet() {
    assert_eq!(
        create_completion_item("min", "Minimum value constraint", CompletionItemKind::Function),
        CompletionItem {
            label: "min".to_string(),
            kind: CompletionItemKind::Function,
            detail: "Minimum value constraint".to_string(),
            insert_text: None,
            snippet: true,
            documentation: None,
        }
    );
}

#[test]
fn completions_behind_at() {
    let items = completions_for_kind(TokenVariant::At);
    assert_eq!(labels(&items), vec!["min", "max", "len", "minlen", "maxlen", "if", "else"]);
    assert_eq!(items[0].detail, "Minimum value constraint");
    assert_eq!(items[1].detail, "Maximum value constraint");
    assert_eq!(items[2].detail, "Length constraint");
    assert_eq!(items[3].detail, "Minimum length constraint");
    assert_eq!(items[4].detail, "Maximum length constraint");
    assert_eq!(items[5].detail, "Conditional validation");
    assert_eq!(items[6].detail, "Alternative validation");
    assert!(items[..5].iter().all(|i| i.kind == CompletionItemKind::Function));
    assert!(items[5..].iter().all(|i| i.kind == CompletionItemKind::Keyword));
    assert!(items.iter().all(|i| i.snippet && i.insert_text.is_none()));
}

#[test]
fn completions_behind_colon() {
    let items = completions_for_kind(TokenVariant::Colon);
    assert_eq!(labels(&items), vec!["string", "u8", "u64", "bool", "float", "Date"]);
    let details: Vec<&str> = items.iter().map(|i| i.detail.as_str()).collect();
    assert_eq!(
        details,
        vec![
            "String type",
            "8-bit unsigned integer",
            "64-bit unsigned integer",
            "Boolean type",
            "Floating point number",
            "Date type",
        ]
    );
    assert!(items.iter().all(|i| i.kind == CompletionItemKind::TypeParameter));
}

#[test]
fn completions_behind_brace() {
    let items = completions_for_kind(TokenVariant::LCurly);
    assert_eq!(labels(&items), vec!["id", "name", "type", "value"]);
    let details: Vec<&str> = items.iter().map(|i| i.detail.as_str()).collect();
    assert_eq!(
        details,
        vec!["Identifier property", "Name property", "Type property", "Value property"]
    );
    assert!(items.iter().all(|i| i.kind == CompletionItemKind::Property));
}

#[test]
fn no_completions_for_other_kinds() {
    assert_eq!(completions_for_kind(TokenVariant::Identifier), vec![]);
    assert_eq!(completions_for_kind(TokenVariant::RCurly), vec![]);
}

#[test]
fn context_completions_follow_the_token() {
    let tokens = lex("type A = { a: @x };");
    assert_eq!(labels(&get_context_completions(&tokens, at(0, 9))), vec![
        "id", "name", "type", "value"
    ]);
    assert_eq!(labels(&get_context_completions(&tokens, at(0, 12))).len(), 6);
    assert_eq!(labels(&get_context_completions(&tokens, at(0, 14))).len(), 7);
    assert_eq!(get_context_completions(&tokens, at(0, 15)), vec![]);
    assert_eq!(get_context_completions(&tokens, at(0, 10)), vec![]);
    assert_eq!(get_context_completions(&tokens, at(5, 0)), vec![]);
}

#[test]
fn general_completions() {
    let items = base_completions();
    assert_eq!(labels(&items), vec!["type", "validator", "set", "enum", "object literal"]);
    assert_eq!(items[0].detail, "Define a new type");
    assert_eq!(items[1].detail, "Define a validator");
    assert_eq!(items[2].detail, "Define a set");
    assert_eq!(items[3].detail, "Define an enumeration");
    assert!(items[..4].iter().all(|i| i.kind == CompletionItemKind::Keyword));
    assert_eq!(
        items[4],
        CompletionItem {
            label: "object literal".to_string(),
            kind: CompletionItemKind::Snippet,
            detail: "Create a new object type".to_string(),
            insert_text: Some("{\n\t${1:property}: ${2:type},\n\t$0\n}".to_string()),
            snippet: true,
            documentation: None,
        }
    );
}

#[test]
fn plugin_completions_are_appended() {
    let mut items = completions_for_kind(TokenVariant::LCurly);
    push_plugin_completions(&mut items, &vec!["Hello".to_string(), "World".to_string()]);
    assert_eq!(labels(&items), vec!["id", "name", "type", "value", "Hello", "World"]);
    assert_eq!(
        items[4],
        CompletionItem {
            label: "Hello".to_string(),
            kind: CompletionItemKind::Property,
            detail: "Plugin provided".to_string(),
            insert_text: None,
            snippet: false,
            documentation: None,
        }
    );
}

#[test]
fn resolve_fills_documentation() {
    let resolve = |label: &str| {
        completion_resolve(create_completion_item(label, "d", CompletionItemKind::Keyword))
            .documentation
    };
    assert_eq!(
        resolve("type"),
        Some("Defines a new type in Xenomorph.\n\nExample:\n``````".to_string())
    );
    assert_eq!(
        resolve("string"),
        Some(
            "String data type.\n\nCan be constrained with regex patterns or length annotations."
                .to_string()
        )
    );
    assert_eq!(
        resolve("u8"),
        Some(
            "8-bit unsigned integer (0-255).\n\nCan be constrained with min/max annotations."
                .to_string()
        )
    );
    assert_eq!(resolve("u64"), None);
}

#[test]
fn resolve_keeps_documentation() {
    let mut item = create_completion_item("type", "d", CompletionItemKind::Keyword);
    item.documentation = Some("mine".to_string());
    let resolved = completion_resolve(item);
    assert_eq!(resolved.documentation, Some("mine".to_string()));
    assert_eq!(resolved.label, "type");
    assert_eq!(resolved.detail, "d");
}

#[test]
fn hover_texts() {
    let hover = |kind: TokenVariant, text: &str| {
        get_hover_for_token(&(kind, td(text, 1, 1))).map(|h| h.contents)
    };
    assert_eq!(
        hover(TokenVariant::Type, "type"),
        Some("**type**\n\nDefines a new type in Xenomorph.".to_string())
    );
    assert_eq!(
        hover(TokenVariant::SetKw, "set"),
        Some(
            "**set**\n\nDefines a set type that can contain elements of other types.".to_string()
        )
    );
    assert_eq!(
        hover(TokenVariant::Enum, "enum"),
        Some("**enum**\n\nDefines an enumeration of possible values.".to_string())
    );
    assert_eq!(
        hover(TokenVariant::At, "@"),
        Some(
            "**@**\n\nIndicates the start of an annotation that provides metadata or validation rules."
                .to_string()
        )
    );
    assert_eq!(hover(TokenVariant::Identifier, "Foo"), Some("**Foo**\n\nIdentifier".to_string()));
    assert_eq!(hover(TokenVariant::Identifier, ""), Some("****\n\nIdentifier".to_string()));
    assert_eq!(hover(TokenVariant::Number, "1"), None);
    assert_eq!(hover(TokenVariant::Semicolon, ";"), None);
}

#[test]
fn hover_for_annotation_names() {
    let hover = |text: &str| {
        get_hover_for_token(&(TokenVariant::Identifier, td(text, 1, 1))).unwrap().contents
    };
    assert_eq!(hover("@min"), "**@min**\n\nSpecifies a minimum value for numeric types.");
    assert_eq!(hover("@max"), "**@max**\n\nSpecifies a maximum value for numeric types.");
    assert_eq!(
        hover("@len"),
        "**@len**\n\nSpecifies a length or length range for strings or arrays."
    );
    assert_eq!(
        hover("@if"),
        "**@if**\n\nConditional validation that applies only when the condition is met."
    );
    assert_eq!(
        hover("@elseif"),
        "**@elesif**\n\nConditional validation that applies only when the preceeding conditions aren't met and this condition is met."
    );
    assert_eq!(
        hover("@else"),
        "**@else**\n\nAlternative validation when preceeding conditions are not met."
    );
    assert_eq!(
        hover("@other"),
        "**@other**\n\nAnnotation that provides metadata or validation rules."
    );
    assert_eq!(hover("@"), "**@**\n\nAnnotation that provides metadata or validation rules.");
}

#[test]
fn hover_range_is_the_token() {
    let hover = get_hover_for_token(&(TokenVariant::Type, td("type", 4, 3))).unwrap();
    assert_eq!(hover.range, span(3, 2, 6));
}

#[test]
fn diagnostic_of_a_parse_error() {
    let error = ParseError { message: "m".to_string(), location: Some(td("abc", 2, 4)) };
    assert_eq!(
        error_diagnostic(&error),
        Diagnostic { range: span(1, 3, 6), message: "m".to_string(), source: "xenomorph".to_string() }
    );
    let nowhere = ParseError { message: "n".to_string(), location: None };
    assert_eq!(
        error_diagnostic(&nowhere),
        Diagnostic { range: span(0, 0, 1), message: "n".to_string(), source: "xenomorph".to_string() }
    );
}

#[test]
fn diagnostic_of_a_semantic_error() {
    let error = SemanticError { message: "s".to_string(), location: td("else", 1, 11) };
    assert_eq!(
        semantic_error_diagnostic(&error),
        Diagnostic { range: span(0, 10, 14), message: "s".to_string(), source: "xenomorph".to_string() }
    );
}
