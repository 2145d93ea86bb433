//! The instruction set of the textual machine.
use vstd::prelude::*;

use crate::valsp::ValSp;

verus! {

/// The name of an instruction; each takes a fixed number of operands.
#[derive(Debug, Clone, Copy, PartialEq, Eq, Structural)]
pub enum OpKind {
    /// Evaluates its operand and discards it.
    Nop,
    Push,
    /// Writes a word at an address, local or global by the address's top bit.
    Store,
    /// Writes a word at an address with the global bit set.
    StoreGlobal,
    Load,
    Add,
    Sub,
    Mul,
    Div,
    ShiftLeft,
    Jump,
    /// Jumps to its third operand when the first two are equal.
    JumpEq,
    Fork,
    Join,
    ThreadFinish,
    Exit,
    AssertEq,
    /// Prints the stack; takes no operand.
    Debug,
}

/// How many operands an instruction of kind `k` takes.
pub open spec fn arity(k: OpKind) -> nat {
    match k {
        OpKind::Debug => 0,
        OpKind::Store | OpKind::StoreGlobal | OpKind::Add | OpKind::Sub | OpKind::Mul
        | OpKind::Div | OpKind::ShiftLeft | OpKind::AssertEq => 2,
        OpKind::JumpEq => 3,
        _ => 1,
    }
}

/// How many operands an instruction of kind `k` takes.
pub fn arity_of(k: OpKind) -> (r: usize)
    ensures
        r == arity(k),
{
    match k {
        OpKind::Debug => 0,
        OpKind::Store | OpKind::StoreGlobal | OpKind::Add | OpKind::Sub | OpKind::Mul
        | OpKind::Div | OpKind::ShiftLeft | OpKind::AssertEq => 2,
        OpKind::JumpEq => 3,
        _ => 1,
    }
}

/// One instruction: its kind and its operands, as many as the kind takes.
#[derive(Debug)]
pub struct OpCode {
    pub(crate) kind: OpKind,
    pub(crate) args: Vec<ValSp>,
}

impl OpCode {
    #[verifier::type_invariant]
    spec fn well_formed(self) -> bool {
        self.args@.len() == arity(self.kind)
    }

    pub closed spec fn spec_kind(self) -> OpKind {
        self.kind
    }

    pub closed spec fn spec_args(self) -> Seq<ValSp> {
        self.args@
    }

    /// An instruction of kind `kind` with operands `args`.
    pub(crate) fn new(kind: OpKind, args: Vec<ValSp>) -> (r: OpCode)
        requires
            args@.len() == arity(kind),
        ensures
            r.spec_kind() == kind,
            r.spec_args() == args@,
    {
        OpCode { kind, args }
    }

    pub fn kind(&self) -> (r: OpKind)
        ensures
            r == self.spec_kind(),
    {
        self.kind
    }

    /// The operands, in the order in which they are evaluated.
    pub fn args(&self) -> (r: &Vec<ValSp>)
        ensures
            r@ == self.spec_args(),
            r@.len() == arity(self.spec_kind()),
    {
        proof {
            use_type_invariant(self);
        }
        &self.args
    }
}

} // verus!
