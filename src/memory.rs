//! Addresses and the process-wide global memory.
use vstd::prelude::*;

use std::collections::BTreeMap;

use crate::error::VmError;
use crate::{Word, WORD_SIZE};

verus! {

/// The most significant bit of a word: set on global addresses.
pub const GLOBAL_BIT: Word = 0x8000_0000_0000_0000;

/// An aligned address, classified by its most significant bit.
#[derive(Debug, Clone, Copy, PartialEq, Eq, Structural)]
pub enum Address {
    Local(Word),
    Global(Word),
}

/// Whether `a` names a word of the current thread's own memory.
pub open spec fn is_local(a: Word) -> bool {
    a < GLOBAL_BIT
}

/// The classification of `a`, or the error for a misaligned address.
pub open spec fn aligned_spec(a: Word) -> Result<Address, VmError> {
    if a % 8 != 0 {
        Err(VmError::MisalignedAddress(a))
    } else if is_local(a) {
        Ok(Address::Local(a))
    } else {
        Ok(Address::Global(a))
    }
}

/// `a` with its most significant bit set.
pub open spec fn to_global_spec(a: Word) -> Word {
    if is_local(a) {
        (a + GLOBAL_BIT) as Word
    } else {
        a
    }
}

/// Classifies an address as local or global; a misaligned one fails.
pub fn aligned(addr: Word) -> (r: Result<Address, VmError>)
    ensures
        r == aligned_spec(addr),
{
    if addr % WORD_SIZE != 0 {
        Err(VmError::MisalignedAddress(addr))
    } else if addr < GLOBAL_BIT {
        Ok(Address::Local(addr))
    } else {
        Ok(Address::Global(addr))
    }
}

/// Sets the global bit of an address.
pub fn to_global(addr: Word) -> (r: Word)
    ensures
        r == to_global_spec(addr),
        r == addr | GLOBAL_BIT,
{
    let r = addr | GLOBAL_BIT;
    assert(addr < 0x8000_0000_0000_0000u64 ==> addr | 0x8000_0000_0000_0000u64 == addr + 0x8000_0000_0000_0000u64) by (bit_vector);
    assert(addr >= 0x8000_0000_0000_0000u64 ==> addr | 0x8000_0000_0000_0000u64 == addr) by (bit_vector);
    r
}

/// The word stored under `k`, or 0 where nothing was stored.
pub open spec fn mem_read(m: Map<Word, Word>, k: Word) -> Word {
    if m.contains_key(k) {
        m[k]
    } else {
        0
    }
}

/// The memory shared by all threads of a process, keyed by (global) byte address.
#[derive(Debug)]
pub struct GlobalMemory {
    words: BTreeMap<Word, Word>,
}

impl View for GlobalMemory {
    type V = Map<Word, Word>;

    closed spec fn view(&self) -> Map<Word, Word> {
        self.words@
    }
}

impl GlobalMemory {
    /// A memory in which nothing has been written.
    pub fn new() -> (r: GlobalMemory)
        ensures
            r@ == Map::<Word, Word>::empty(),
    {
        GlobalMemory { words: BTreeMap::new() }
    }

    /// The word at `addr`; 0 where nothing was written.
    pub fn read(&self, addr: Word) -> (r: Word)
        ensures
            r == mem_read(self@, addr),
    {
        match self.words.get(&addr) {
            Some(v) => *v,
            None => 0,
        }
    }

    /// Stores `value` at `addr`, replacing what was there.
    pub fn write(&mut self, addr: Word, value: Word)
        ensures
            final(self)@ == old(self)@.insert(addr, value),
    {
        self.words.insert(addr, value);
    }
}

} // verus!
