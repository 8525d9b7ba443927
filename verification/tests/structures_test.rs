use rox::interpreter::interpret_result::{InterpretError, InterpretErrorType};
use rox::interpreter::parser::Parser;
use rox::interpreter::stack::Stack as InterpreterStack;
use rox::lox::precedence::Precedence;
use rox::lox::scanner::Scanner;
use rox::lox::token::{Token, TokenType};
use rox::roxc::local::Local;
use rox::roxc::options::Options;
use rox::roxc::rox_result::{RoxError as CompileError, RoxErrorType};
use rox::roxc::semant::types::{Type, TypeConstructor};
use rox::roxc::stack::Stack;
use rox::roxc::syntax::Identifier;
use std::path::PathBuf;

#[test]
fn a_stack_gives_back_what_was_pushed_last() {
    let mut stack = Stack::new();
    stack.push(1);
    stack.push(2);
    assert_eq!(*stack.top(), 2);
    assert_eq!(stack.pop(), Some(2));
    assert_eq!(*stack.top(), 1);
    *stack.top_mut() = 3;
    assert_eq!(*stack.get(0), 3);
    stack.set(0, 5);
    assert_eq!(stack.get_inner_array(), &vec![5]);
    assert_eq!(stack.pop(), Some(5));
    assert_eq!(stack.pop(), None);
}

#[test]
fn the_interpreter_stack_behaves_alike() {
    let mut stack = InterpreterStack::new();
    stack.push("a");
    stack.push("b");
    assert_eq!(*stack.top(), "b");
    *stack.top_mut() = "c";
    assert_eq!(stack.pop(), Some("c"));
    assert_eq!(stack.pop(), Some("a"));
    assert_eq!(stack.pop(), None);
}

#[test]
fn identifiers_keep_their_generic_fields() {
    let t = Identifier::new_non_generic("T".to_string());
    let list = Identifier::new("List".to_string(), vec![t]);
    assert_eq!(list.get_name(), "List");
    assert_eq!(list.get_generic_fields().len(), 1);
    assert_eq!(list.get_generic_fields()[0].get_name(), "T");
}

#[test]
fn options_name_the_file() {
    let run = Options::Run { file: PathBuf::from("a.rox") };
    assert_eq!(run.get_path(), &PathBuf::from("a.rox"));
    let build = Options::Build { file: PathBuf::from("b.rox"), output: PathBuf::from("b"), no_link: true };
    assert_eq!(build.get_path(), &PathBuf::from("b.rox"));
}

#[test]
fn results_report_their_kind() {
    let e = CompileError::compilation_error::<()>().unwrap_err();
    assert_eq!(e.error_type, RoxErrorType::CompileError);
    assert!(e.message.is_none());
    assert_eq!(InterpretError::runtime_error().error_type, InterpretErrorType::InterpretRuntimeError);
    assert_eq!(InterpretError::compilation_error().error_type, InterpretErrorType::InterpretCompileError);
    let local = Local::new("x".to_string(), 2);
    assert_eq!((local.name.as_str(), local.depth), ("x", 2));
}

#[test]
fn record_fields_are_read_from_record_types() {
    let record = Type::Apply(
        TypeConstructor::Record(vec![("x".to_string(), Type::Apply(TypeConstructor::Int, vec![]))]),
        vec![],
    );
    let fields = record.get_record_fields();
    assert_eq!(fields.len(), 1);
    assert_eq!(fields[0].0, "x");
}

#[test]
fn precedence_levels_are_numbered_in_order() {
    assert_eq!(Precedence::from_u8(4), Some(Precedence::PrecedenceEquality));
    assert_eq!(Precedence::PrecedenceTerm.rank(), 6);
    assert_eq!(Precedence::from_u8(11), None);
    assert!(Precedence::PrecedenceTerm.at_most(&Precedence::PrecedenceFactor));
    for n in 0..=10u8 {
        assert_eq!(Precedence::from_u8(n).unwrap().rank(), n);
    }
}

fn scan_all(source: &str) -> Vec<(TokenType, Vec<u8>, i32)> {
    let bytes = source.as_bytes().to_vec();
    let mut scanner = Scanner::new(&bytes);
    let mut tokens = Vec::new();
    loop {
        let token = scanner.scan_token();
        tokens.push((token.token_type, token.text.to_vec(), token.line));
        if token.token_type == TokenType::TokenEof {
            return tokens;
        }
    }
}

#[test]
fn the_scanner_reads_numbers_and_operators() {
    let tokens = scan_all("12.5 +\n 3 // sum\n");
    assert_eq!(
        tokens,
        vec![
            (TokenType::TokenNumber, b"12.5".to_vec(), 1),
            (TokenType::TokenPlus, Vec::new(), 1),
            (TokenType::TokenNumber, b"3".to_vec(), 2),
            (TokenType::TokenEof, Vec::new(), 3),
        ]
    );
}

#[test]
fn the_scanner_reads_an_equal_sign_as_a_comparison() {
    let tokens = scan_all("x = y");
    assert_eq!(tokens[1], (TokenType::TokenEqualEqual, b"=".to_vec(), 1));
    assert_eq!(tokens[0].0, TokenType::TokenIdentifier);
}

#[test]
fn the_scanner_stays_on_a_bang() {
    let bytes = b"!x".to_vec();
    let mut scanner = Scanner::new(&bytes);
    assert_eq!(scanner.scan_token().token_type, TokenType::TokenBang);
    assert_eq!(scanner.current, 0);
    assert_eq!(scanner.scan_token().token_type, TokenType::TokenBang);
}

#[test]
fn the_parser_checks_the_current_token() {
    let text = b"x".to_vec();
    let current = Token { token_type: TokenType::TokenEof, text: &text, line: 1 };
    let previous = Token { token_type: TokenType::TokenIdentifier, text: &text, line: 1 };
    let parser = Parser { current, previous, had_error: false, panic_mode: false };
    assert!(parser.is_end_of_file());
    assert!(parser.check(TokenType::TokenEof));
    assert_eq!(parser.current_token_type(), TokenType::TokenEof);
    assert_eq!(TokenType::default(), TokenType::TokenDefault);
}
