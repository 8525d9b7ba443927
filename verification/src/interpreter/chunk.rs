//! The code of a chunk of bytecode.
use vstd::prelude::*;
use crate::interpreter::op_code::OpCode;

verus! {

/// One entry of a chunk's code: an instruction, or the index of a
/// constant that the instruction before it reads.
#[derive(Clone, Copy, Debug, PartialEq, Eq, Structural)]
pub enum Byte {
    Op(OpCode),
    Constant(usize),
}

} // verus!
