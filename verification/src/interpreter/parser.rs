//! The state of the interpreter's parser.
use vstd::prelude::*;
use crate::lox::token::{Token, TokenType};

verus! {

/// The token being looked at, the one before it, and whether an error was
/// met and is being recovered from.
#[derive(Clone, Copy, Debug)]
pub struct Parser<'a> {
    pub current: Token<'a>,
    pub previous: Token<'a>,
    pub had_error: bool,
    pub panic_mode: bool,
}

impl Parser<'_> {
    /// Whether the current token is of the given kind.
    pub fn check(&self, token_type: TokenType) -> (r: bool)
        ensures
            r == (self.current.token_type == token_type),
    {
        self.current_token_type() == token_type
    }

    /// The kind of the current token.
    pub fn current_token_type(&self) -> (r: TokenType)
        ensures
            r == self.current.token_type,
    {
        self.current.token_type
    }

    /// Whether the current token ends the program.
    pub fn is_end_of_file(&self) -> (r: bool)
        ensures
            r == (self.current.token_type == TokenType::TokenEof),
    {
        self.check(TokenType::TokenEof)
    }
}

} // verus!
