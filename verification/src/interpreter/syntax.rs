//! The syntax of the interpreter's language that carries no numbers.
use vstd::prelude::*;

verus! {

/// A binary operator.
#[derive(Clone, Copy, Debug, PartialEq, Eq, Structural)]
pub enum Operation {
    Equals,
    NotEquals,
    GreaterThan,
    LessThan,
    Add,
    Subtract,
    Multiply,
    Divide,
    Modulo,
}

/// A function declaration; it carries nothing yet.
#[derive(Debug)]
pub struct Function;

/// A field of a record declaration; it carries nothing yet.
#[derive(Debug)]
pub struct Field;

} // verus!
