//! Errors raised while executing a program.
use vstd::prelude::*;

use crate::fmt::{dec_chars, hex_chars, push_dec, push_hex, push_str};
use crate::text::string_of;
use crate::Word;

verus! {

/// Why a thread stopped with an error.
#[derive(Debug, Clone, Copy, PartialEq, Eq, Structural)]
pub enum VmError {
    /// `$pop` on an empty stack, or `$pop[i]` with `i` not below the stack length.
    PopFromEmptyStack,
    /// `$peek` on an empty stack.
    PeekEmptyStack,
    /// An address that is not a multiple of the word size.
    MisalignedAddress(Word),
    /// A global address handed to the thread-local memory.
    GlobalAddressInState(Word),
    /// A jump target at or past the end of the program.
    JumpOutOfRange { target: Word, len: usize },
    /// A join of an id that names no joinable thread.
    JoinedUnknownThread(Word),
    /// `ASSERT_EQ` on two different words.
    AssertionFailed { left: Word, right: Word },
    /// `DIV` with a zero divisor.
    DivisionByZero { dividend: Word },
    /// `SHIFT_LEFT` by 64 or more.
    ShiftTooLarge { amount: Word },
}

impl VmError {
    /// The text of the error.
    pub open spec fn spec_message(self) -> Seq<char> {
        match self {
            VmError::PopFromEmptyStack => "Pop from empty stack"@,
            VmError::PeekEmptyStack => "Peek empty stack"@,
            VmError::MisalignedAddress(a) => "Misaligned address: 0x"@ + hex_chars(a as nat),
            VmError::GlobalAddressInState(a) => "Attempted to access global address in state: 0x"@
                + hex_chars(a as nat),
            VmError::JumpOutOfRange { target, len } => "Jump outside of program range: "@ + dec_chars(
                target as nat,
            ) + " >= "@ + dec_chars(len as nat),
            VmError::JoinedUnknownThread(t) => "Joined unknown thread: "@ + dec_chars(t as nat),
            VmError::AssertionFailed { left, right } => "Expected "@ + dec_chars(left as nat)
                + " to equal "@ + dec_chars(right as nat),
            VmError::DivisionByZero { dividend } => "Division by zero: "@ + dec_chars(dividend as nat)
                + " / 0"@,
            VmError::ShiftTooLarge { amount } => "Shift amount too large: "@ + dec_chars(amount as nat),
        }
    }

    /// The text of the error, such as `Misaligned address: 0x7`.
    pub fn message(&self) -> (r: String)
        ensures
            r@ == self.spec_message(),
    {
        let mut out: Vec<char> = Vec::new();
        match *self {
            VmError::PopFromEmptyStack => push_str(&mut out, "Pop from empty stack"),
            VmError::PeekEmptyStack => push_str(&mut out, "Peek empty stack"),
            VmError::MisalignedAddress(a) => {
                push_str(&mut out, "Misaligned address: 0x");
                push_hex(&mut out, a);
            },
            VmError::GlobalAddressInState(a) => {
                push_str(&mut out, "Attempted to access global address in state: 0x");
                push_hex(&mut out, a);
            },
            VmError::JumpOutOfRange { target, len } => {
                push_str(&mut out, "Jump outside of program range: ");
                push_dec(&mut out, target);
                push_str(&mut out, " >= ");
                push_dec(&mut out, len as u64);
            },
            VmError::JoinedUnknownThread(t) => {
                push_str(&mut out, "Joined unknown thread: ");
                push_dec(&mut out, t);
            },
            VmError::AssertionFailed { left, right } => {
                push_str(&mut out, "Expected ");
                push_dec(&mut out, left);
                push_str(&mut out, " to equal ");
                push_dec(&mut out, right);
            },
            VmError::DivisionByZero { dividend } => {
                push_str(&mut out, "Division by zero: ");
                push_dec(&mut out, dividend);
                push_str(&mut out, " / 0");
            },
            VmError::ShiftTooLarge { amount } => {
                push_str(&mut out, "Shift amount too large: ");
                push_dec(&mut out, amount);
            },
        }
        proof {
            assert(out@ =~= self.spec_message());
        }
        string_of(&out)
    }
}

} // verus!
