//! A thread's own state: stack, local memory and instruction pointer.
use vstd::prelude::*;

use std::collections::BTreeMap;

use crate::error::VmError;
use crate::fmt::{dec_chars, hex_chars, push_dec, push_hex, push_str};
use crate::text::string_of;
use crate::memory::{is_local, mem_read, GLOBAL_BIT};
use crate::program::Program;
use crate::{Word, WORD_SIZE};

verus! {

/// The mathematical value of a thread's state.
pub struct ThreadModel {
    pub stack: Seq<Word>,
    /// Local memory, keyed by word index (byte address divided by the word size).
    pub memory: Map<Word, Word>,
    pub ip: Word,
}

/// The word index of a local address, or why the address is refused.
pub open spec fn aligned_local_spec(a: Word) -> Result<Word, VmError> {
    if a % 8 != 0 {
        Err(VmError::MisalignedAddress(a))
    } else if !is_local(a) {
        Err(VmError::GlobalAddressInState(a))
    } else {
        Ok(a / 8)
    }
}

/// The line that shows stack entry `w`, `i` places below the top.
pub open spec fn debug_line(i: nat, w: Word) -> Seq<char> {
    dec_chars(i) + ": 0x"@ + hex_chars(w as nat) + " ("@ + dec_chars(w as nat) + ")"@
}

/// A thread's stack, local memory and instruction pointer.
#[derive(Debug)]
pub struct ThreadState {
    pub stack: Vec<Word>,
    pub memory: BTreeMap<Word, Word>,
    pub instruction_pointer: Word,
}

impl View for ThreadState {
    type V = ThreadModel;

    open spec fn view(&self) -> ThreadModel {
        ThreadModel { stack: self.stack@, memory: self.memory@, ip: self.instruction_pointer }
    }
}

impl ThreadState {
    /// The state a thread starts in: empty stack, empty memory, first instruction.
    pub fn new() -> (r: ThreadState)
        ensures
            r@ == (ThreadModel { stack: Seq::empty(), memory: Map::empty(), ip: 0 }),
    {
        ThreadState { stack: Vec::new(), memory: BTreeMap::new(), instruction_pointer: 0 }
    }

    /// A copy of this state, for a forked thread.
    pub fn duplicate(&self) -> (r: ThreadState)
        ensures
            r@ == self@,
    {
        ThreadState {
            stack: self.stack.clone(),
            memory: self.memory.clone(),
            instruction_pointer: self.instruction_pointer,
        }
    }

    /// One line per stack entry, top first: its depth, then its value in
    /// hexadecimal and in decimal.
    pub fn debug_lines(&self) -> (r: Vec<String>)
        ensures
            r@.len() == self@.stack.len(),
            forall|i: int|
                0 <= i < r@.len() ==> r@[i]@ == debug_line(
                    i as nat,
                    self@.stack[self@.stack.len() - 1 - i],
                ),
    {
        let n = self.stack.len();
        let mut r: Vec<String> = Vec::new();
        let mut i: usize = 0;
        while i < n
            invariant
                i <= n,
                n == self@.stack.len(),
                r@.len() == i,
                forall|j: int|
                    0 <= j < i ==> r@[j]@ == debug_line(j as nat, self@.stack[n - 1 - j]),
            decreases n - i,
        {
            let w = self.stack[n - 1 - i];
            let mut line: Vec<char> = Vec::new();
            push_dec(&mut line, i as u64);
            push_str(&mut line, ": 0x");
            push_hex(&mut line, w);
            push_str(&mut line, " (");
            push_dec(&mut line, w);
            push_str(&mut line, ")");
            assert(line@ =~= debug_line(i as nat, w));
            r.push(string_of(&line));
            i = i + 1;
        }
        r
    }

    pub fn push(&mut self, v: Word)
        ensures
            final(self)@ == (ThreadModel { stack: old(self)@.stack.push(v), ..old(self)@ }),
    {
        self.stack.push(v);
    }

    /// Reads local memory at a byte address.
    pub fn read_memory(&self, addr: Word) -> (r: Result<Word, VmError>)
        ensures
            r == (match aligned_local_spec(addr) {
                Ok(k) => Ok(mem_read(self@.memory, k)),
                Err(e) => Err(e),
            }),
    {
        let k = self.aligned_local(addr)?;
        match self.memory.get(&k) {
            Some(v) => Ok(*v),
            None => Ok(0),
        }
    }

    /// The word index of a local byte address.
    pub fn aligned_local(&self, addr: Word) -> (r: Result<Word, VmError>)
        ensures
            r == aligned_local_spec(addr),
    {
        if addr % WORD_SIZE != 0 {
            return Err(VmError::MisalignedAddress(addr));
        }
        if addr >= GLOBAL_BIT {
            return Err(VmError::GlobalAddressInState(addr));
        }
        Ok(addr / WORD_SIZE)
    }

    /// Writes local memory at a byte address.
    pub fn write_memory(&mut self, addr: Word, value: Word) -> (r: Result<(), VmError>)
        ensures
            match aligned_local_spec(addr) {
                Ok(k) => r is Ok && final(self)@ == (ThreadModel {
                    memory: old(self)@.memory.insert(k, value),
                    ..old(self)@
                }),
                Err(e) => r == Err::<(), VmError>(e) && final(self)@ == old(self)@,
            },
    {
        let k = self.aligned_local(addr)?;
        self.memory.insert(k, value);
        Ok(())
    }

    /// Moves the instruction pointer to `addr`, which must lie inside `program`.
    pub fn jump_to(&mut self, addr: Word, program: &Program) -> (r: Result<(), VmError>)
        ensures
            addr < program@.len() ==> r is Ok && final(self)@ == (ThreadModel { ip: addr, ..old(self)@ }),
            addr >= program@.len() ==> r == Err::<(), VmError>(
                VmError::JumpOutOfRange { target: addr, len: program@.len() as usize },
            ) && final(self)@ == old(self)@,
    {
        let len = program.len();
        if addr >= len as u64 {
            return Err(VmError::JumpOutOfRange { target: addr, len });
        }
        self.instruction_pointer = addr;
        Ok(())
    }
}

} // verus!
