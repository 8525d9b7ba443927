//! A chunk of bytecode: what the bytecode compiler writes and the
//! bytecode machine runs.
use vstd::prelude::*;
use crate::interpreter::common::OpCode;
use crate::lox::traits::PushLine;

verus! {

broadcast use vstd::seq::group_seq_axioms, vstd::std_specs::vec::group_vec_axioms;

/// One entry of a chunk's code: an instruction, or the index of the
/// constant that the instruction before it loads.
#[derive(Clone, Copy, Debug, PartialEq, Eq, Structural)]
pub enum Byte {
    Op(OpCode),
    Constant(u8),
}

/// The code of a chunk, the constants it loads (each kept as the source
/// text of a number literal), and a line for every entry of the code and
/// every constant, in the order in which they were added.
#[derive(Clone, Debug)]
pub struct Chunk {
    pub codes: Vec<Byte>,
    pub constants: Vec<Vec<u8>>,
    pub lines: Vec<i32>,
}

/// The texts of the constants.
pub open spec fn constants_view(constants: Seq<Vec<u8>>) -> Seq<Seq<u8>> {
    constants.map_values(|v: Vec<u8>| v@)
}

/// The lines, as integers.
pub open spec fn lines_view(lines: Seq<i32>) -> Seq<int> {
    lines.map_values(|l: i32| l as int)
}

impl Chunk {
    /// An empty chunk.
    pub fn new() -> (r: Chunk)
        ensures
            r.codes@.len() == 0,
            r.constants@.len() == 0,
            r.lines@.len() == 0,
    {
        Chunk { codes: Vec::new(), constants: Vec::new(), lines: Vec::new() }
    }
}

impl PushLine<Byte> for Chunk {
    /// Adds an entry to the code, and its line; gives the entry's index.
    fn push_line(&mut self, byte: Byte, line: i32) -> (r: usize)
        ensures
            final(self).codes@ == old(self).codes@.push(byte),
            final(self).constants@ == old(self).constants@,
            final(self).lines@ == old(self).lines@.push(line),
            r == old(self).codes@.len(),
    {
        self.codes.push(byte);
        self.lines.push(line);
        self.codes.len() - 1
    }
}

impl PushLine<Vec<u8>> for Chunk {
    /// Adds a constant, and its line; gives the constant's index.
    fn push_line(&mut self, constant: Vec<u8>, line: i32) -> (r: usize)
        ensures
            final(self).codes@ == old(self).codes@,
            final(self).constants@ == old(self).constants@.push(constant),
            final(self).lines@ == old(self).lines@.push(line),
            r == old(self).constants@.len(),
    {
        self.constants.push(constant);
        self.lines.push(line);
        self.constants.len() - 1
    }
}

} // verus!
