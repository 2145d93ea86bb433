//! The numeric bytecode: an alternate program form for the task machine.
use vstd::prelude::*;

verus! {

/// Bit of `ConditionFlags`: jump only when the top of the stack is zero.
pub const ZERO_BIT: u8 = 0b1;

/// Bit of `ConditionFlags`: jump only in a task that was forked.
pub const FORK_BIT: u8 = 0b10;

/// The conditions under which a `Jump` is taken; every flag set must hold.
#[derive(Debug, Clone, Copy, PartialEq, Eq, Structural)]
pub struct ConditionFlags {
    bits: u8,
}

impl ConditionFlags {
    pub closed spec fn spec_bits(self) -> u8 {
        self.bits
    }

    pub closed spec fn from_bits_spec(bits: u8) -> ConditionFlags {
        ConditionFlags { bits: bits & (ZERO_BIT | FORK_BIT) }
    }

    /// Whether every flag of `other` is set in `self`.
    pub open spec fn spec_contains(self, other: ConditionFlags) -> bool {
        self.spec_bits() & other.spec_bits() == other.spec_bits()
    }

    /// No flag set: the jump is always taken.
    pub fn empty() -> (r: ConditionFlags)
        ensures
            r.spec_bits() == 0,
    {
        ConditionFlags { bits: 0 }
    }

    /// The flags given by the known bits of `bits`; other bits are dropped.
    pub fn from_bits_truncate(bits: u8) -> (r: ConditionFlags)
        ensures
            r.spec_bits() == bits & (ZERO_BIT | FORK_BIT),
            r == Self::from_bits_spec(bits),
    {
        ConditionFlags { bits: bits & (ZERO_BIT | FORK_BIT) }
    }

    pub fn bits(&self) -> (r: u8)
        ensures
            r == self.spec_bits(),
    {
        self.bits
    }

    pub fn contains(&self, other: ConditionFlags) -> (r: bool)
        ensures
            r == self.spec_contains(other),
    {
        self.bits & other.bits == other.bits
    }
}

/// One instruction of the numeric bytecode.
#[derive(Debug, Clone, Copy, PartialEq, Eq, Structural)]
#[non_exhaustive]
pub enum OpCode {
    Push(i64),
    /// Pops two values and pushes their wrapping sum.
    Add,
    DumpDebug,
    /// Jumps to the target, or to a popped one, when the flags' conditions hold.
    Jump(ConditionFlags, Option<i64>),
    /// Pushes the return address and jumps to the target, or to a popped one.
    JumpToSubroutine(Option<i64>),
    /// Pops the top and inserts it that many places from the bottom end.
    Bury(i64),
    /// Moves the element that many places below the top to the top.
    Dredge(i64),
    Duplicate,
    /// Pops an address and jumps there.
    Return,
    Pop,
    Fork,
    Join(i64),
    Halt,
    Store(u64),
    Load(u64),
    StoreRelative(u64),
    LoadRelative(u64),
    Panic,
}

/// A program in the numeric bytecode.
#[derive(Debug, Clone)]
pub struct ByteCode {
    opcodes: Vec<OpCode>,
}

impl View for ByteCode {
    type V = Seq<OpCode>;

    closed spec fn view(&self) -> Seq<OpCode> {
        self.opcodes@
    }
}

impl ByteCode {
    pub fn new(opcodes: Vec<OpCode>) -> (r: ByteCode)
        ensures
            r@ == opcodes@,
    {
        ByteCode { opcodes }
    }

    pub fn len(&self) -> (r: usize)
        ensures
            r == self@.len(),
    {
        self.opcodes.len()
    }

    /// The instruction at `index`, if there is one.
    pub fn get(&self, index: usize) -> (r: Option<&OpCode>)
        ensures
            index < self@.len() ==> r == Some(&self@[index as int]),
            index >= self@.len() ==> r is None,
    {
        if index < self.opcodes.len() {
            Some(&self.opcodes[index])
        } else {
            None
        }
    }

    /// The instructions from `bounds` before `index` to `bounds` after it, clipped
    /// to the program, each with its index.
    pub fn surrounding(&self, index: usize, bounds: usize) -> (r: Vec<(usize, OpCode)>)
        requires
            self@.len() > 0,
        ensures
            ({
                let start = if index >= bounds { index - bounds } else { 0 };
                let end = if index + bounds < self@.len() { index + bounds } else { self@.len() - 1 };
                &&& r@.len() == if start <= end { end - start + 1 } else { 0 }
                &&& forall|k: int|
                    0 <= k < r@.len() ==> r@[k] == ((start + k) as usize, self@[start + k])
            }),
    {
        let start = index.saturating_sub(bounds);
        let wide = index.saturating_add(bounds);
        let last = self.opcodes.len() - 1;
        let end = if wide < last { wide } else { last };
        let mut r: Vec<(usize, OpCode)> = Vec::new();
        if start > end {
            return r;
        }
        let mut i = start;
        while i <= end
            invariant
                start <= i <= end + 1,
                end < self.opcodes.len(),
                r@.len() == i - start,
                forall|k: int| 0 <= k < r@.len() ==> r@[k] == ((start + k) as usize, self@[start + k]),
            decreases end + 1 - i,
        {
            r.push((i, self.opcodes[i]));
            i = i + 1;
        }
        r
    }
}

impl From<Vec<OpCode>> for ByteCode {
    fn from(opcodes: Vec<OpCode>) -> (r: ByteCode) {
        ByteCode { opcodes }
    }
}

impl vstd::std_specs::convert::FromSpecImpl<Vec<OpCode>> for ByteCode {
    open spec fn obeys_from_spec() -> bool {
        true
    }

    closed spec fn from_spec(v: Vec<OpCode>) -> ByteCode {
        ByteCode { opcodes: v }
    }
}

} // verus!
