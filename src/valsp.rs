//! Value specifiers: the operand sources of an instruction, and what they
//! evaluate to.
use vstd::prelude::*;

use crate::error::VmError;
use crate::memory::{aligned_spec, mem_read, to_global_spec, Address};
use crate::state::ThreadModel;
use crate::Word;

verus! {

/// Where an operand's value comes from.
#[derive(Debug, PartialEq, Eq)]
pub enum ValSp {
    /// A constant.
    Literal(Word),
    /// The top of the stack, removed.
    Pop,
    /// The element `i` places below the top, removed; `i` is the inner value.
    PopI(Box<ValSp>),
    /// The top of the stack, left in place.
    Peek,
    /// Memory at the inner value, local or global by its top bit.
    Memory(Box<ValSp>),
    /// Global memory at the inner value with its top bit set.
    GlobalMemory(Box<ValSp>),
    /// The running thread's id.
    ThreadId,
}

/// Reads memory at `a`: the thread's own memory for a local address, the global
/// memory `g` for a global one.
pub open spec fn read_spec(a: Word, t: ThreadModel, g: Map<Word, Word>) -> Result<Word, VmError> {
    match aligned_spec(a) {
        Err(e) => Err(e),
        Ok(Address::Local(l)) => Ok(mem_read(t.memory, l / 8)),
        Ok(Address::Global(x)) => Ok(mem_read(g, x)),
    }
}

/// The thread after its stack has been replaced by `s`.
pub open spec fn with_stack(t: ThreadModel, s: Seq<Word>) -> ThreadModel {
    ThreadModel { stack: s, ..t }
}

/// What `vs` evaluates to in thread `id` with state `t` and global memory `g`,
/// together with the thread state afterwards (a pop changes the stack).
pub open spec fn eval_spec(vs: ValSp, id: Word, t: ThreadModel, g: Map<Word, Word>) -> Result<
    (Word, ThreadModel),
    VmError,
>
    decreases vs,
{
    match vs {
        ValSp::Literal(w) => Ok((w, t)),
        ValSp::Pop => if t.stack.len() == 0 {
            Err(VmError::PopFromEmptyStack)
        } else {
            Ok((t.stack.last(), with_stack(t, t.stack.drop_last())))
        },
        ValSp::PopI(e) => match eval_spec(*e, id, t, g) {
            Err(x) => Err(x),
            Ok((i, t1)) => if i >= t1.stack.len() {
                Err(VmError::PopFromEmptyStack)
            } else {
                let idx = t1.stack.len() - 1 - i;
                Ok((t1.stack[idx], with_stack(t1, t1.stack.remove(idx))))
            },
        },
        ValSp::Peek => if t.stack.len() == 0 {
            Err(VmError::PeekEmptyStack)
        } else {
            Ok((t.stack.last(), t))
        },
        ValSp::Memory(e) => match eval_spec(*e, id, t, g) {
            Err(x) => Err(x),
            Ok((a, t1)) => match read_spec(a, t1, g) {
                Err(x) => Err(x),
                Ok(v) => Ok((v, t1)),
            },
        },
        ValSp::GlobalMemory(e) => match eval_spec(*e, id, t, g) {
            Err(x) => Err(x),
            Ok((a, t1)) => match read_spec(to_global_spec(a), t1, g) {
                Err(x) => Err(x),
                Ok(v) => Ok((v, t1)),
            },
        },
        ValSp::ThreadId => Ok((id, t)),
    }
}

/// Evaluates `vs` from first to last, each on the state the previous one left;
/// the values in order and the final state, or the first error.
pub open spec fn eval_all(vs: Seq<ValSp>, id: Word, t: ThreadModel, g: Map<Word, Word>) -> Result<
    (Seq<Word>, ThreadModel),
    VmError,
>
    decreases vs.len(),
{
    if vs.len() == 0 {
        Ok((Seq::empty(), t))
    } else {
        match eval_all(vs.drop_last(), id, t, g) {
            Err(e) => Err(e),
            Ok((ws, t1)) => match eval_spec(vs.last(), id, t1, g) {
                Err(e) => Err(e),
                Ok((w, t2)) => Ok((ws.push(w), t2)),
            },
        }
    }
}

/// An error in the evaluation of a prefix is the error of the whole list.
pub proof fn lemma_eval_all_prefix_err(
    vs: Seq<ValSp>,
    n: int,
    id: Word,
    t: ThreadModel,
    g: Map<Word, Word>,
)
    requires
        0 <= n <= vs.len(),
        eval_all(vs.subrange(0, n), id, t, g) is Err,
    ensures
        eval_all(vs, id, t, g) == eval_all(vs.subrange(0, n), id, t, g),
    decreases vs.len() - n,
{
    if n < vs.len() {
        let p = vs.subrange(0, n + 1);
        assert(p.drop_last() =~= vs.subrange(0, n));
        lemma_eval_all_prefix_err(vs, n + 1, id, t, g);
    } else {
        assert(vs.subrange(0, n) =~= vs);
    }
}

} // verus!
