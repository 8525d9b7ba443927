use rox::roxc::errors::{clean_expected, ParseError, RoxError};
use rox::roxc::parser::{parse_named, parse_string};
use rox::roxc::parser::lexer::{chars_of, lex, TokenKind};
use std::path::PathBuf;

#[test]
fn a_character_that_starts_no_token_is_invalid() {
    let e = parse_string("fn main() do $ end", &PathBuf::new()).unwrap_err();
    assert_eq!(e.labels.len(), 1);
    assert_eq!((e.labels[0].start, e.labels[0].end), (13, 14));
    assert_eq!(e.labels[0].message.as_deref(), Some("Invalid token."));
    assert!(e.notes.is_empty());
    assert!(e.message.is_none());
}

#[test]
fn a_missing_end_is_an_unrecognized_eof() {
    let e = parse_named("fn main() do", "main.rox".to_string()).unwrap_err();
    assert_eq!(e.file.name, "main.rox");
    assert_eq!(e.file.source, "fn main() do");
    assert_eq!((e.labels[0].start, e.labels[0].end), (12, 13));
    assert_eq!(e.labels[0].message.as_deref(), Some("Unrecognized EOF"));
    assert_eq!(e.notes, vec!["Expected one of [\"end\"]".to_string()]);
}

#[test]
fn an_unexpected_token_is_reported_with_what_was_expected() {
    let e = parse_string("fn 1", &PathBuf::new()).unwrap_err();
    assert_eq!((e.labels[0].start, e.labels[0].end), (3, 4));
    assert_eq!(e.labels[0].message.as_deref(), Some("Unrecognized token "));
    assert_eq!(e.notes, vec!["Expected one of [\"identifier\"]".to_string()]);
}

#[test]
fn a_stray_end_is_reported() {
    let e = parse_string("end", &PathBuf::new()).unwrap_err();
    assert_eq!(e.notes, vec!["Expected one of [\"EOF\"]".to_string()]);
}

#[test]
fn expressions_bind_by_precedence() {
    let statements = parse_string("1 + 2 * 3 == 7 || !false;", &PathBuf::new()).unwrap();
    assert_eq!(statements.len(), 1);
    let text = format!("{:?}", statements[0]);
    assert!(text.starts_with("Expression(Or(Operation(Operation(Float"));
}

#[test]
fn the_lexer_ends_with_the_end_of_the_file() {
    let tokens = lex(&chars_of("let x = 1.5; // note\n")).unwrap();
    let kinds: Vec<TokenKind> = tokens.iter().map(|t| t.kind).collect();
    assert_eq!(
        kinds,
        vec![
            TokenKind::Let,
            TokenKind::Identifier,
            TokenKind::Equal,
            TokenKind::Number,
            TokenKind::Semicolon,
            TokenKind::Eof
        ]
    );
    assert_eq!(tokens[3].text, "1.5");
    assert_eq!((tokens[5].start, tokens[5].end), (21, 21));
}

#[test]
fn the_lexer_reports_where_no_token_starts() {
    assert_eq!(lex(&chars_of("a # b")).unwrap_err(), 2);
}

#[test]
fn expected_names_lose_their_quotes() {
    let cleaned = clean_expected(&vec!["\"do\"".to_string(), "\"end\"".to_string(), "ab".to_string()]);
    assert_eq!(cleaned, vec!["do".to_string(), "end".to_string(), "".to_string()]);
}

#[test]
fn parse_errors_become_diagnostics() {
    let error = ParseError::UnrecognizedToken {
        token: (4, "x".to_string(), 5),
        expected: vec!["\";\"".to_string(), "\")\"".to_string()],
    };
    let e = RoxError::from_parse_error(&error, "a.rox".to_string(), "let x".to_string());
    assert_eq!((e.labels[0].start, e.labels[0].end), (4, 5));
    assert_eq!(e.notes, vec!["Expected one of [\";\", \")\"]".to_string()]);
    let invalid = RoxError::from_parse_error(
        &ParseError::InvalidToken { location: 7 },
        "a.rox".to_string(),
        String::new(),
    );
    assert_eq!((invalid.labels[0].start, invalid.labels[0].end), (7, 8));
}

#[test]
fn errors_can_be_made_without_a_file() {
    let e = RoxError::with_file_placeholder("oops");
    assert_eq!(e.message.as_deref(), Some("oops"));
    assert!(e.file.name.is_empty());
    let f = RoxError::new("f.rox".to_string(), "body".to_string(), "bad");
    assert_eq!(f.file.source, "body");
    assert_eq!(f.message.as_deref(), Some("bad"));
}

#[test]
fn expected_names_are_written_as_debug_formatting_writes_them() {
    let error = ParseError::UnrecognizedEof {
        location: 0,
        expected: vec!["\"a\\b\"".to_string(), "\"end\"".to_string()],
    };
    let e = RoxError::from_parse_error(&error, "a.rox".to_string(), String::new());
    assert_eq!(e.notes, vec!["Expected one of [\"a\\\\b\", \"end\"]".to_string()]);
}
