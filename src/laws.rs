//! Properties that hold across the machine's functions.
use vstd::prelude::*;

use crate::memory::{aligned_spec, is_local, mem_read, Address, GLOBAL_BIT};
use crate::opcode::OpCode;
use crate::parse::{
    count_ops, is_label, label_table, lemma_label_table_err, lookup, program_spec, valsp_spec,
};
use crate::state::ThreadModel;
use crate::text::relevant_lines;
use crate::thread::{
    exit_status, join_spec, result_word, step_spec, StepModel, ThreadResult,
};
use crate::valsp::{eval_all, ValSp};
use crate::Word;

verus! {

/// A label on line `j` of the relevant lines resolves, as an operand, to the
/// number of instruction lines before it.
pub proof fn label_resolves_to_its_instruction(text: Seq<char>, j: int)
    requires
        0 <= j < relevant_lines(text).len(),
        is_label(relevant_lines(text)[j]),
        label_table(relevant_lines(text)) is Ok,
    ensures
        valsp_spec(relevant_lines(text)[j], label_table(relevant_lines(text))->Ok_0) == Ok::<
            ValSp,
            (crate::parse::ParseErrorKind, Seq<char>),
        >(ValSp::Literal(count_ops(relevant_lines(text).take(j)) as u64)),
{
    let ls = relevant_lines(text);
    lemma_label_found(ls, j, j + 1);
    assert(ls.take(ls.len() as int) =~= ls);
    lemma_label_kept(ls, j, j + 1, ls.len() as int);
}

proof fn lemma_label_found(ls: Seq<Seq<char>>, j: int, n: int)
    requires
        0 <= j < ls.len(),
        n == j + 1,
        is_label(ls[j]),
        label_table(ls) is Ok,
    ensures
        label_table(ls.take(n)) is Ok,
        lookup(label_table(ls.take(n))->Ok_0, ls[j].drop_first()) == Some(count_ops(ls.take(j)) as u64),
{
    if label_table(ls.take(n)) is Err {
        lemma_label_table_err(ls, n);
    }
    assert(ls.take(n).drop_last() =~= ls.take(j));
}

proof fn lemma_label_kept(ls: Seq<Seq<char>>, j: int, n: int, m: int)
    requires
        0 <= j < n <= m <= ls.len(),
        label_table(ls) is Ok,
        label_table(ls.take(n)) is Ok,
        lookup(label_table(ls.take(n))->Ok_0, ls[j].drop_first()) == Some(count_ops(ls.take(j)) as u64),
    ensures
        label_table(ls.take(m)) is Ok,
        lookup(label_table(ls.take(m))->Ok_0, ls[j].drop_first()) == Some(count_ops(ls.take(j)) as u64),
    decreases m - n,
{
    if n < m {
        if label_table(ls.take(n + 1)) is Err {
            lemma_label_table_err(ls, n + 1);
        }
        assert(ls.take(n + 1).drop_last() =~= ls.take(n));
        assert(ls.take(n + 1).last() == ls[n]);
        let t = label_table(ls.take(n))->Ok_0;
        let l = ls[n];
        if is_label(l) {
            let e = (l.drop_first(), count_ops(ls.take(n)) as u64);
            assert(t.push(e).drop_last() =~= t);
        }
        lemma_label_kept(ls, j, n + 1, m);
    }
}

/// An aligned address whose top bit is clear is local, one whose top bit is set
/// is global, and a misaligned address fails.
pub proof fn address_locality(a: Word)
    ensures
        a % 8 != 0 ==> aligned_spec(a) == Err::<Address, crate::error::VmError>(
            crate::error::VmError::MisalignedAddress(a),
        ),
        a % 8 == 0 && a & GLOBAL_BIT == 0 ==> aligned_spec(a) == Ok::<Address, crate::error::VmError>(
            Address::Local(a),
        ),
        a % 8 == 0 && a & GLOBAL_BIT != 0 ==> aligned_spec(a) == Ok::<Address, crate::error::VmError>(
            Address::Global(a),
        ),
{
    assert(a & 0x8000_0000_0000_0000u64 == 0 <==> a < 0x8000_0000_0000_0000u64) by (bit_vector);
}

/// Evaluating the operands `a` followed by `b` is evaluating `a`, then `b` on
/// the state `a` left, with the values in the same order.
pub proof fn operands_left_to_right(
    a: Seq<ValSp>,
    b: Seq<ValSp>,
    id: Word,
    t: ThreadModel,
    g: Map<Word, Word>,
)
    ensures
        eval_all(a + b, id, t, g) == match eval_all(a, id, t, g) {
            Err(e) => Err(e),
            Ok((wa, t1)) => match eval_all(b, id, t1, g) {
                Err(e) => Err(e),
                Ok((wb, t2)) => Ok((wa + wb, t2)),
            },
        },
    decreases b.len(),
{
    if b.len() == 0 {
        assert(a + b =~= a);
        match eval_all(a, id, t, g) {
            Err(e) => {},
            Ok((wa, t1)) => {
                assert(wa + Seq::<Word>::empty() =~= wa);
            },
        }
    } else {
        operands_left_to_right(a, b.drop_last(), id, t, g);
        assert((a + b).drop_last() =~= a + b.drop_last());
        assert((a + b).last() == b.last());
        match eval_all(a, id, t, g) {
            Err(e) => {},
            Ok((wa, t1)) => {
                match eval_all(b.drop_last(), id, t1, g) {
                    Err(e) => {},
                    Ok((wb, t2)) => {
                        match crate::valsp::eval_spec(b.last(), id, t2, g) {
                            Err(e) => {},
                            Ok((w, t3)) => {
                                assert((wa + wb).push(w) =~= wa + wb.push(w));
                            },
                        }
                    },
                }
            },
        }
    }
}

/// Memory after the writes `ws`, in order, starting from `m`.
pub open spec fn apply_writes(m: Map<Word, Word>, ws: Seq<(Word, Word)>) -> Map<Word, Word>
    decreases ws.len(),
{
    if ws.len() == 0 {
        m
    } else {
        apply_writes(m, ws.drop_last()).insert(ws.last().0, ws.last().1)
    }
}

/// In a memory that starts empty, an address that no write touched reads 0.
pub proof fn unwritten_global_reads_zero(ws: Seq<(Word, Word)>, a: Word)
    requires
        forall|i: int| 0 <= i < ws.len() ==> ws[i].0 != a,
    ensures
        mem_read(apply_writes(Map::empty(), ws), a) == 0,
    decreases ws.len(),
{
    if ws.len() > 0 {
        unwritten_global_reads_zero(ws.drop_last(), a);
    }
}

/// A fork hands the child a copy of the parent's stack with the parent's id on
/// top, the parent's local memory, and the fork target; the parent's own state
/// and the global memory are left as they were.
pub proof fn fork_copies_parent(ops: Seq<OpCode>, id: Word, t: ThreadModel, g: Map<Word, Word>)
    requires
        step_spec(ops, id, t, g) matches Ok((StepModel::Fork(_), _, _)),
    ensures
        step_spec(ops, id, t, g) matches Ok((StepModel::Fork(c), p, g2)) && c.stack == p.stack.push(id)
            && c.memory == p.memory && c.ip < ops.len() && g2 == g,
{
}

/// No step of any thread writes a local address in the shared memory: what one
/// thread keeps in its local memory and stack stays its own.
pub proof fn steps_share_only_global_words(
    ops: Seq<OpCode>,
    id: Word,
    t: ThreadModel,
    g: Map<Word, Word>,
    k: Word,
)
    requires
        is_local(k),
        step_spec(ops, id, t, g) is Ok,
    ensures
        mem_read(step_spec(ops, id, t, g)->Ok_0.2, k) == mem_read(g, k),
{
    assert(forall|x: Word| x < GLOBAL_BIT ==> #[trigger] (x | GLOBAL_BIT) >= GLOBAL_BIT) by (bit_vector);
}

/// The result a chain of joiners in states `ts` ends with when the deepest
/// joined thread ends with `r`: each joiner in turn handles the result of the
/// thread it joined. `None` once some joiner carries on running.
pub open spec fn propagate(ts: Seq<ThreadModel>, r: ThreadResult) -> Option<ThreadResult>
    decreases ts.len(),
{
    if ts.len() == 0 {
        Some(r)
    } else {
        match propagate(ts.drop_last(), r) {
            Some(x) => join_spec(ts.last(), x).0,
            None => None,
        }
    }
}

/// An exit with code `c` anywhere down a chain of joins ends every joiner up to
/// the root with the same exit, and the process reports `c` truncated to 8
/// bits.
pub proof fn exit_propagates_to_root(ts: Seq<ThreadModel>, c: Word)
    ensures
        propagate(ts, ThreadResult::Exit(c)) == Some(ThreadResult::Exit(c)),
        exit_status(result_word(propagate(ts, ThreadResult::Exit(c))->0)) == c % 256,
    decreases ts.len(),
{
    if ts.len() > 0 {
        exit_propagates_to_root(ts.drop_last(), c);
    }
}

/// Assembling the same text twice gives the same instructions.
pub proof fn parsing_is_deterministic(a: Seq<char>, b: Seq<char>)
    requires
        a == b,
    ensures
        program_spec(a) == program_spec(b),
{
}

} // verus!
