//! The instructions of the interpreter's virtual machine.
use vstd::prelude::*;

verus! {

/// An instruction.  `OpLocation` carries the position that a jump goes to;
/// `Placeholder` stands where that position is not known yet.
#[derive(Clone, Copy, Debug, PartialEq, Eq, Structural)]
pub enum OpCode {
    And,
    Or,
    Equals,
    NotEquals,
    Constant,
    True,
    False,
    Not,
    Negate,
    Add,
    Subtract,
    Multiply,
    Divide,
    Modulo,
    LessThan,
    GreaterThan,
    Equal,
    Pop,
    DefineVariable,
    GetVariable,
    SetVariable,
    ScopeStart,
    ScopeEnd,
    Print,
    Return,
    JumpIfFalse,
    Jump,
    Placeholder,
    OpLocation(usize),
    Loop,
}

} // verus!
