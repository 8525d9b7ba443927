//! The tokens of the bytecode interpreter's language.
use vstd::prelude::*;

verus! {

/// The kinds of tokens.
#[derive(Clone, Copy, Debug, PartialEq, Eq, Structural)]
pub enum TokenType {
    TokenLeftParen,
    TokenRightParen,
    TokenLeftBrace,
    TokenRightBrace,
    TokenComma,
    TokenDot,
    TokenMinus,
    TokenPlus,
    TokenSemicolon,
    TokenSlash,
    TokenStar,
    TokenBang,
    TokenBangEqual,
    TokenEqual,
    TokenEqualEqual,
    TokenGreater,
    TokenGreaterEqual,
    TokenLess,
    TokenLessEqual,
    TokenIdentifier,
    TokenString,
    TokenNumber,
    TokenAnd,
    TokenClass,
    TokenElse,
    TokenFalse,
    TokenFor,
    TokenFn,
    TokenIf,
    TokenNil,
    TokenOr,
    TokenPrint,
    TokenReturn,
    TokenSuper,
    TokenThis,
    TokenTrue,
    TokenVar,
    TokenWhile,
    TokenError,
    TokenEof,
    TokenDefault,
}

impl Default for TokenType {
    /// The kind of a token that has not been read yet.
    fn default() -> (r: TokenType)
        ensures
            r == TokenType::TokenDefault,
    {
        TokenType::TokenDefault
    }
}

/// A token: its kind, the bytes of the source it was read from, and the
/// line it stands on.
#[derive(Clone, Copy, Debug)]
pub struct Token<'scanner> {
    pub token_type: TokenType,
    pub text: &'scanner [u8],
    pub line: i32,
}

} // verus!
