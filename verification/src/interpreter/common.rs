//! The instructions of the first bytecode machine.
use vstd::prelude::*;

verus! {

/// An instruction of the first bytecode machine.
#[derive(Clone, Copy, Debug, PartialEq, Eq, Structural)]
pub enum OpCode {
    OpConstant,
    OpTrue,
    OpFalse,
    OpNot,
    OpNegate,
    OpAdd,
    OpSubtract,
    OpMultiply,
    OpDivide,
    OpLessThan,
    OpGreaterThan,
    OpEqual,
    OpPrint,
    OpReturn,
}

} // verus!
