use xenomorph::lexer::{tokenizer, LexError, Lexer, LexerLocation};
use xenomorph::tokens::{Token, TokenData, TokenVariant};

fn lex(src: &str) -> Vec<Token> {
    Lexer::new(src).tokenize().expect("the text lexes")
}

fn kinds(src: &str) -> Vec<TokenVariant> {
    lex(src).iter().map(|t| t.0).collect()
}

fn texts(src: &str) -> Vec<String> {
    lex(src).iter().map(|t| t.1.v.clone()).collect()
}

fn token(kind: TokenVariant, v: &str, l: usize, c: usize) -> Token {
    (kind, TokenData { v: v.to_string(), l, c })
}

/// The source characters of a token: its text, inside its delimiters.
fn source_of(t: &Token) -> String {
    match t.0 {
        TokenVariant::String => format!("\"{}\"", t.1.v),
        TokenVariant::Regex => format!("/{}/", t.1.v),
        _ => t.1.v.clone(),
    }
}

/// Walks `src` and checks that the tokens, in order, with nothing but
/// whitespace and line comments between them, make up the whole text.
fn tiles(src: &str) -> bool {
    let chars: Vec<char> = src.chars().collect();
    let mut at = 0usize;
    for t in lex(src) {
        loop {
            if at < chars.len() && matches!(chars[at], ' ' | '\n' | '\t' | '\r') {
                at += 1;
            } else if at + 1 < chars.len() && chars[at] == '/' && chars[at + 1] == '/' {
                while at < chars.len() && chars[at] != '\n' {
                    at += 1;
                }
            } else {
                break;
            }
        }
        let piece: Vec<char> = source_of(&t).chars().collect();
        if at + piece.len() > chars.len() || chars[at..at + piece.len()] != piece[..] {
            return false;
        }
        at += piece.len();
    }
    loop {
        if at < chars.len() && matches!(chars[at], ' ' | '\n' | '\t' | '\r') {
            at += 1;
        } else if at + 1 < chars.len() && chars[at] == '/' && chars[at + 1] == '/' {
            while at < chars.len() && chars[at] != '\n' {
                at += 1;
            }
        } else {
            break;
        }
    }
    at == chars.len()
}

#[test]
fn empty_source_has_no_tokens() {
    assert_eq!(lex(""), vec![]);
    assert_eq!(lex(" \t\r\n  "), vec![]);
}

#[test]
fn range_between_numbers() {
    assert_eq!(
        lex("1..5"),
        vec![
            token(TokenVariant::Number, "1", 1, 1),
            token(TokenVariant::Range, "..", 1, 2),
            token(TokenVariant::Number, "5", 1, 4),
        ]
    );
}

#[test]
fn decimal_number_is_one_token() {
    assert_eq!(lex("1.5"), vec![token(TokenVariant::Number, "1.5", 1, 1)]);
    let value: f64 = lex("1.5")[0].1.v.parse().unwrap();
    assert_eq!(value, 1.5);
}

#[test]
fn number_then_dot() {
    assert_eq!(
        lex("1."),
        vec![token(TokenVariant::Number, "1", 1, 1), token(TokenVariant::Dot, ".", 1, 2)]
    );
}

#[test]
fn second_dot_ends_the_number() {
    assert_eq!(
        lex("1.5.2"),
        vec![
            token(TokenVariant::Number, "1.5", 1, 1),
            token(TokenVariant::Dot, ".", 1, 4),
            token(TokenVariant::Number, "2", 1, 5),
        ]
    );
}

#[test]
fn comment_yields_no_token() {
    assert_eq!(lex("// comment\ntype"), vec![token(TokenVariant::Type, "type", 2, 1)]);
    assert_eq!(lex("// only a comment"), vec![]);
    assert_eq!(lex("a // b\n// c\nd"), vec![
        token(TokenVariant::Identifier, "a", 1, 1),
        token(TokenVariant::Identifier, "d", 3, 1),
    ]);
}

#[test]
fn regex_text_excludes_slashes() {
    assert_eq!(lex("/abc/"), vec![token(TokenVariant::Regex, "abc", 1, 1)]);
    assert_eq!(lex("/a b/ x"), vec![
        token(TokenVariant::Regex, "a b", 1, 1),
        token(TokenVariant::Identifier, "x", 1, 7),
    ]);
}

#[test]
fn unterminated_regex_is_an_error() {
    assert_eq!(
        Lexer::new("/abc").tokenize(),
        Err((LexError::MalformedRegex, LexerLocation { src_index: 0, line: 1, column: 1 }))
    );
    assert_eq!(
        Lexer::new("a\n  /abc").tokenize(),
        Err((LexError::MalformedRegex, LexerLocation { src_index: 4, line: 2, column: 3 }))
    );
}

#[test]
fn string_text_excludes_quotes() {
    assert_eq!(lex("\"hi there\""), vec![token(TokenVariant::String, "hi there", 1, 1)]);
    assert_eq!(lex("\"\""), vec![token(TokenVariant::String, "", 1, 1)]);
    assert_eq!(lex("\"a\\\" b"), vec![
        token(TokenVariant::String, "a\\", 1, 1),
        token(TokenVariant::Identifier, "b", 1, 6),
    ]);
}

#[test]
fn unterminated_string_is_an_error() {
    assert_eq!(
        Lexer::new("x \"abc").tokenize(),
        Err((LexError::StringNotTerminated, LexerLocation { src_index: 2, line: 1, column: 3 }))
    );
}

#[test]
fn unknown_character_is_an_error() {
    assert_eq!(
        Lexer::new("a\n#").tokenize(),
        Err((LexError::TokenNotRecognized, LexerLocation { src_index: 2, line: 2, column: 1 }))
    );
    assert_eq!(
        Lexer::new("type ~").tokenize(),
        Err((LexError::TokenNotRecognized, LexerLocation { src_index: 5, line: 1, column: 6 }))
    );
}

#[test]
fn lexer_error_messages() {
    assert_eq!(LexError::TokenNotRecognized.message(), "Token not recognized");
    assert_eq!(LexError::MalformedRegex.message(), "Malformed regex");
    assert_eq!(LexError::StringNotTerminated.message(), "String not terminated");
}

#[test]
fn location_describes_itself() {
    let loc = LexerLocation { src_index: 12, line: 3, column: 40 };
    assert_eq!(loc.describe(), "index: 12, line: 3, column: 40");
    let start = LexerLocation { src_index: 0, line: 1, column: 1 };
    assert_eq!(start.describe(), "index: 0, line: 1, column: 1");
}

#[test]
fn keywords_and_identifiers() {
    assert_eq!(
        kinds("type set enum true false types _x x1 Type"),
        vec![
            TokenVariant::Type,
            TokenVariant::SetKw,
            TokenVariant::Enum,
            TokenVariant::True,
            TokenVariant::False,
            TokenVariant::Identifier,
            TokenVariant::Identifier,
            TokenVariant::Identifier,
            TokenVariant::Identifier,
        ]
    );
    assert_eq!(
        texts("type set enum true false types _x x1 Type"),
        vec!["type", "set", "enum", "true", "false", "types", "_x", "x1", "Type"]
    );
}

#[test]
fn dot_range_lt_symmdiff() {
    assert_eq!(kinds("."), vec![TokenVariant::Dot]);
    assert_eq!(kinds(".."), vec![TokenVariant::Range]);
    assert_eq!(kinds(".<"), vec![TokenVariant::Range]);
    assert_eq!(kinds("<."), vec![TokenVariant::Range]);
    assert_eq!(kinds("<.<"), vec![TokenVariant::Range]);
    assert_eq!(kinds("<>"), vec![TokenVariant::SymmDiff]);
    assert_eq!(kinds("<"), vec![TokenVariant::Lt]);
    assert_eq!(kinds("< ."), vec![TokenVariant::Lt, TokenVariant::Dot]);
    assert_eq!(kinds("..."), vec![TokenVariant::Range, TokenVariant::Dot]);
    assert_eq!(kinds("<.."), vec![TokenVariant::Range, TokenVariant::Dot]);
    assert_eq!(texts("<.< <. .< <>"), vec!["<.<", "<.", ".<", "<>"]);
}

#[test]
fn not_and_neq() {
    assert_eq!(kinds("!"), vec![TokenVariant::Not]);
    assert_eq!(kinds("!="), vec![TokenVariant::Neq]);
    assert_eq!(kinds("! ="), vec![TokenVariant::Not, TokenVariant::Eq]);
    assert_eq!(texts("!a != b"), vec!["!", "a", "!=", "b"]);
}

#[test]
fn single_character_tokens() {
    assert_eq!(
        kinds("@ : $ | & ( ) , { } [ ] > ; + - * ^ = \\"),
        vec![
            TokenVariant::At,
            TokenVariant::Colon,
            TokenVariant::Dollar,
            TokenVariant::Or,
            TokenVariant::And,
            TokenVariant::LParen,
            TokenVariant::RParen,
            TokenVariant::Comma,
            TokenVariant::LCurly,
            TokenVariant::RCurly,
            TokenVariant::LBracket,
            TokenVariant::RBracket,
            TokenVariant::Gt,
            TokenVariant::Semicolon,
            TokenVariant::Plus,
            TokenVariant::Minus,
            TokenVariant::Asterix,
            TokenVariant::Caret,
            TokenVariant::Eq,
            TokenVariant::Backslash,
        ]
    );
}

#[test]
fn positions_follow_lines_and_columns() {
    assert_eq!(
        lex("type A\n  = 1;\n\nx"),
        vec![
            token(TokenVariant::Type, "type", 1, 1),
            token(TokenVariant::Identifier, "A", 1, 6),
            token(TokenVariant::Eq, "=", 2, 3),
            token(TokenVariant::Number, "1", 2, 5),
            token(TokenVariant::Semicolon, ";", 2, 6),
            token(TokenVariant::Identifier, "x", 4, 1),
        ]
    );
}

#[test]
fn string_may_span_lines() {
    assert_eq!(
        lex("\"a\nb\" c"),
        vec![token(TokenVariant::String, "a\nb", 1, 1), token(TokenVariant::Identifier, "c", 2, 4)]
    );
}

#[test]
fn text_beyond_ascii_inside_literals() {
    assert_eq!(
        lex("\"héllo\" x // ünïcode\ny"),
        vec![
            token(TokenVariant::String, "héllo", 1, 1),
            token(TokenVariant::Identifier, "x", 1, 9),
            token(TokenVariant::Identifier, "y", 2, 1),
        ]
    );
}

#[test]
fn error_offset_counts_bytes() {
    assert_eq!(
        Lexer::new("\"é\" #").tokenize(),
        Err((LexError::TokenNotRecognized, LexerLocation { src_index: 5, line: 1, column: 5 }))
    );
    assert_eq!(
        Lexer::new("// 日本語\n\"漢\" /x").tokenize(),
        Err((LexError::MalformedRegex, LexerLocation { src_index: 19, line: 2, column: 5 }))
    );
    let mut lexer = Lexer::new("\"𝄞\"");
    assert_eq!(lexer.tokenize().unwrap(), vec![token(TokenVariant::String, "𝄞", 1, 1)]);
    assert_eq!(lexer.location(), LexerLocation { src_index: 6, line: 1, column: 4 });
}

#[test]
fn token_data_by_byte_offset() {
    let mut lexer = Lexer::new("\"é\" ab");
    lexer.tokenize().unwrap();
    let at = LexerLocation { src_index: 5, line: 1, column: 5 };
    assert_eq!(
        TokenData::from_loc_to_but_not_including_lexer(&at, &lexer),
        TokenData { v: "ab".to_string(), l: 1, c: 5 }
    );
    assert_eq!(
        TokenData::at_loc_in_lexer(&at, &lexer),
        TokenData { v: "a".to_string(), l: 1, c: 5 }
    );
    let accent = LexerLocation { src_index: 1, line: 1, column: 2 };
    assert_eq!(
        TokenData::at_loc_in_lexer(&accent, &lexer),
        TokenData { v: "é".to_string(), l: 1, c: 2 }
    );
}

#[test]
fn tokens_and_gaps_reproduce_the_source() {
    for src in [
        "",
        "type A = 1;",
        "  type  A=\n {a: \"x y\", b: /re+/ } // trailing\n",
        "// c1\n// c2\n1..5 <.< <> ! != 1.5.2",
        "type X = @if(1) | @elseif(2) | @else(3);",
        "\"héllo\" // ü\n$x",
    ] {
        assert!(tiles(src), "{:?}", src);
    }
}

#[test]
fn second_tokenize_finds_nothing_more() {
    let mut lexer = Lexer::new("a b");
    assert_eq!(lexer.tokenize().unwrap().len(), 2);
    assert_eq!(lexer.tokenize(), Ok(vec![]));
    assert_eq!(lexer.src(), "a b");
    assert_eq!(lexer.location(), LexerLocation { src_index: 3, line: 1, column: 4 });
}

#[test]
fn tokenizer_lexes_from_the_start() {
    assert_eq!(tokenizer("a"), Ok(vec![token(TokenVariant::Identifier, "a", 1, 1)]));
    assert_eq!(
        tokenizer("?"),
        Err((LexError::TokenNotRecognized, LexerLocation { src_index: 0, line: 1, column: 1 }))
    );
}

#[test]
fn token_data_at_the_lexer() {
    let lexer = Lexer::new("ab\ncd");
    assert_eq!(TokenData::one_at_lexer(&lexer), TokenData { v: "a".to_string(), l: 1, c: 1 });
    let at = LexerLocation { src_index: 3, line: 2, column: 1 };
    assert_eq!(
        TokenData::at_loc_in_lexer(&at, &lexer),
        TokenData { v: "c".to_string(), l: 2, c: 1 }
    );
    let mut done = Lexer::new("ab\ncd");
    done.tokenize().unwrap();
    assert_eq!(
        TokenData::from_loc_to_but_not_including_lexer(&at, &done),
        TokenData { v: "cd".to_string(), l: 2, c: 1 }
    );
}

#[test]
fn token_names_and_descriptions() {
    assert_eq!(TokenVariant::SetKw.name(), "Set");
    assert_eq!(TokenVariant::LCurly.name(), "LCurly");
    assert_eq!(TokenVariant::SymmDiff.name(), "SymmDiff");
    let d = TokenData { v: "abc".to_string(), l: 12, c: 305 };
    assert_eq!(d.describe(), "\"abc\" on line:12 column:305");
    let zero = TokenData { v: String::new(), l: 0, c: 10 };
    assert_eq!(zero.describe(), "\"\" on line:0 column:10");
}
