//! Programs: the instruction sequence that the assembler produces.
use vstd::prelude::*;

use crate::opcode::OpCode;

verus! {

/// An assembled program; it does not change once built.
#[derive(Debug)]
pub struct Program {
    ops: Vec<OpCode>,
}

impl View for Program {
    type V = Seq<OpCode>;

    closed spec fn view(&self) -> Seq<OpCode> {
        self.ops@
    }
}

impl Program {
    pub(crate) fn from_ops(ops: Vec<OpCode>) -> (r: Program)
        ensures
            r@ == ops@,
    {
        Program { ops }
    }

    /// The number of instructions.
    pub fn len(&self) -> (r: usize)
        ensures
            r == self@.len(),
    {
        self.ops.len()
    }

    /// The instruction at index `i`.
    pub fn op(&self, i: usize) -> (r: &OpCode)
        requires
            i < self@.len(),
        ensures
            *r == self@[i as int],
    {
        &self.ops[i]
    }
}

} // verus!
