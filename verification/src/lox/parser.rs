//! The state of the bytecode compiler's parser.
use vstd::prelude::*;
use crate::lox::token::Token;

verus! {

/// The token being looked at, the one before it, and whether an error was
/// met and is being recovered from.
#[derive(Clone, Copy, Debug)]
pub struct Parser<'a> {
    pub current: Token<'a>,
    pub previous: Token<'a>,
    pub had_error: bool,
    pub panic_mode: bool,
}

} // verus!
