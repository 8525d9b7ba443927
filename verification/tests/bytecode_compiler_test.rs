use rox::interpreter::common::OpCode;
use rox::lox::chunk::Byte;
use rox::lox::compile::{CompileErrorKind, Compiler};
use rox::lox::token::TokenType;

fn constant(index: u8) -> Vec<Byte> {
    vec![Byte::Op(OpCode::OpConstant), Byte::Constant(index)]
}

fn compiled(source: &str) -> (bool, Vec<Byte>, Vec<Vec<u8>>, Vec<i32>, Vec<(TokenType, CompileErrorKind)>) {
    let bytes = source.as_bytes().to_vec();
    let mut compiler = Compiler::new(&bytes);
    let ok = compiler.compile();
    let chunk = compiler.chunk().clone();
    let errors = compiler
        .errors()
        .iter()
        .map(|e| (e.token.token_type, e.kind))
        .collect();
    (ok, chunk.codes, chunk.constants, chunk.lines, errors)
}

#[test]
fn compiles_a_sum() {
    let (ok, codes, constants, lines, errors) = compiled("1 + 2");
    assert!(ok);
    let mut expected = constant(0);
    expected.extend(constant(1));
    expected.push(Byte::Op(OpCode::OpAdd));
    expected.push(Byte::Op(OpCode::OpReturn));
    assert_eq!(codes, expected);
    assert_eq!(constants, vec![b"1".to_vec(), b"2".to_vec()]);
    assert_eq!(lines, vec![1; 8]);
    assert!(errors.is_empty());
}

#[test]
fn multiplication_binds_tighter_than_addition() {
    let (ok, codes, constants, _, _) = compiled("1 + 2 * 3");
    assert!(ok);
    let mut expected = constant(0);
    expected.extend(constant(1));
    expected.extend(constant(2));
    expected.push(Byte::Op(OpCode::OpMultiply));
    expected.push(Byte::Op(OpCode::OpAdd));
    expected.push(Byte::Op(OpCode::OpReturn));
    assert_eq!(codes, expected);
    assert_eq!(constants, vec![b"1".to_vec(), b"2".to_vec(), b"3".to_vec()]);
}

#[test]
fn parentheses_group_first() {
    let (ok, codes, _, _, _) = compiled("(1 + 2) * 3");
    assert!(ok);
    let mut expected = constant(0);
    expected.extend(constant(1));
    expected.push(Byte::Op(OpCode::OpAdd));
    expected.extend(constant(2));
    expected.push(Byte::Op(OpCode::OpMultiply));
    expected.push(Byte::Op(OpCode::OpReturn));
    assert_eq!(codes, expected);
}

#[test]
fn division_associates_to_the_left() {
    let (ok, codes, _, _, _) = compiled("8 / 4 / 2");
    assert!(ok);
    let mut expected = constant(0);
    expected.extend(constant(1));
    expected.push(Byte::Op(OpCode::OpDivide));
    expected.extend(constant(2));
    expected.push(Byte::Op(OpCode::OpDivide));
    expected.push(Byte::Op(OpCode::OpReturn));
    assert_eq!(codes, expected);
}

#[test]
fn negation_binds_tighter_than_subtraction() {
    let (ok, codes, constants, _, _) = compiled("-1 - 2.5");
    assert!(ok);
    let mut expected = constant(0);
    expected.push(Byte::Op(OpCode::OpNegate));
    expected.extend(constant(1));
    expected.push(Byte::Op(OpCode::OpSubtract));
    expected.push(Byte::Op(OpCode::OpReturn));
    assert_eq!(codes, expected);
    assert_eq!(constants, vec![b"1".to_vec(), b"2.5".to_vec()]);
}

#[test]
fn constants_take_the_scanner_line_and_code_the_token_line() {
    let (ok, _, _, lines, _) = compiled("1\n* 2");
    assert!(ok);
    assert_eq!(lines, vec![2, 1, 1, 2, 2, 2, 2, 2]);
}

#[test]
fn an_empty_program_expects_an_expression() {
    let (ok, codes, _, _, errors) = compiled("");
    assert!(!ok);
    assert_eq!(codes, vec![Byte::Op(OpCode::OpReturn)]);
    assert_eq!(errors, vec![(TokenType::TokenEof, CompileErrorKind::ExpectedExpression)]);
}

#[test]
fn an_unknown_byte_is_reported_once() {
    let (ok, codes, _, _, errors) = compiled("#");
    assert!(!ok);
    assert_eq!(codes, vec![Byte::Op(OpCode::OpReturn)]);
    assert_eq!(errors, vec![(TokenType::TokenError, CompileErrorKind::UnexpectedCharacter)]);
}

#[test]
fn an_unclosed_group_is_passed_over() {
    let (ok, codes, _, _, errors) = compiled("(1");
    assert!(ok);
    let mut expected = constant(0);
    expected.push(Byte::Op(OpCode::OpReturn));
    assert_eq!(codes, expected);
    assert!(errors.is_empty());
}

#[test]
fn too_many_constants_are_reported() {
    let source = vec!["1"; 257].join("+");
    let (ok, codes, constants, _, errors) = compiled(&source);
    assert!(!ok);
    assert_eq!(constants.len(), 257);
    assert_eq!(errors, vec![(TokenType::TokenNumber, CompileErrorKind::TooManyConstants)]);
    let loads: Vec<Byte> = codes
        .iter()
        .filter(|b| matches!(b, Byte::Constant(_)))
        .cloned()
        .collect();
    assert_eq!(loads[255], Byte::Constant(255));
    assert_eq!(loads[256], Byte::Constant(0));
}

#[test]
fn error_kinds_carry_their_messages() {
    assert_eq!(CompileErrorKind::UnexpectedCharacter.message(), "This is a terrible error message.");
    assert_eq!(CompileErrorKind::ExpectedExpression.message(), "Expected expression.");
    assert_eq!(CompileErrorKind::TooManyConstants.message(), "Too many constants in one chunk.");
}

#[test]
fn compiled_chunks_end_with_a_return_and_load_only_their_constants() {
    for source in ["1 + 2 * 3", "(4 - -5) / 6", "", "#", "1 2", "((", "7 * (8"] {
        let (ok, codes, constants, _, errors) = compiled(source);
        assert_eq!(codes.last(), Some(&Byte::Op(OpCode::OpReturn)));
        assert_eq!(ok, errors.is_empty());
        for byte in &codes {
            if let Byte::Constant(index) = byte {
                assert!((*index as usize) < constants.len());
            }
        }
    }
}
