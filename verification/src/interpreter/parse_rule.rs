//! The rules of the interpreter's expression parser.
use vstd::prelude::*;
use crate::lox::precedence::Precedence;

verus! {

/// What the parser does with a token that starts or continues an
/// expression.
#[derive(Clone, Copy, Debug, PartialEq, Eq, Structural)]
pub enum ParseOp {
    Binary,
    Grouping,
    Literal,
    Noop,
    Number,
    String,
    Unary,
    Variable,
}

/// The rule of a token: what it does in prefix and in infix position, and
/// how tightly it binds as an infix operator.
#[derive(Clone, Copy, Debug)]
pub struct ParseRule {
    pub prefix: ParseOp,
    pub infix: ParseOp,
    pub precedence: Precedence,
}

} // verus!
