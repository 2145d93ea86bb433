//! Execution of one thread: operand evaluation and the effect of each
//! instruction. Forks, joins and debug output are handed to the host.
use vstd::prelude::*;

use crate::error::VmError;
use crate::memory::{
    aligned, aligned_spec, to_global, to_global_spec, Address, GlobalMemory,
};
use crate::opcode::{OpCode, OpKind};
use crate::program::Program;
use crate::state::{ThreadModel, ThreadState};
use crate::valsp::{eval_all, eval_spec, lemma_eval_all_prefix_err, read_spec, with_stack, ValSp};
use crate::Word;

verus! {

/// How a thread ended.
#[derive(Debug, Clone, Copy, PartialEq, Eq, Structural)]
pub enum ThreadResult {
    /// The whole process is to end with this code.
    Exit(Word),
    /// The thread returns this value to the thread that joins it.
    Finish(Word),
}

/// What a thread asks of its host after one instruction.
pub enum StepModel {
    Continue,
    Done(ThreadResult),
    /// Spawn a thread in this state, then report its id with `resume_fork`.
    Fork(ThreadModel),
    /// Join this thread id, then report its result with `resume_join`.
    Join(Word),
    /// Print the stack.
    Debug,
}

/// What a thread asks of its host after one instruction.
#[derive(Debug)]
pub enum Step {
    Continue,
    Done(ThreadResult),
    Fork(ThreadState),
    Join(Word),
    Debug,
}

impl View for Step {
    type V = StepModel;

    open spec fn view(&self) -> StepModel {
        match self {
            Step::Continue => StepModel::Continue,
            Step::Done(r) => StepModel::Done(*r),
            Step::Fork(s) => StepModel::Fork(s@),
            Step::Join(t) => StepModel::Join(*t),
            Step::Debug => StepModel::Debug,
        }
    }
}

/// The thread and global memory after writing `v` at address `a`.
pub open spec fn write_spec(a: Word, v: Word, t: ThreadModel, g: Map<Word, Word>) -> Result<
    (ThreadModel, Map<Word, Word>),
    VmError,
> {
    match aligned_spec(a) {
        Err(e) => Err(e),
        Ok(Address::Local(l)) => Ok((ThreadModel { memory: t.memory.insert(l / 8, v), ..t }, g)),
        Ok(Address::Global(x)) => Ok((t, g.insert(x, v))),
    }
}

/// The outcome of one instruction: what the host is asked, the thread state and
/// the global memory afterwards.
pub type Outcome = Result<(StepModel, ThreadModel, Map<Word, Word>), VmError>;

pub open spec fn push_spec(t: ThreadModel, v: Word) -> ThreadModel {
    with_stack(t, t.stack.push(v))
}

/// Moves to instruction `target` of a program of `len` instructions.
pub open spec fn jump_spec(target: Word, t: ThreadModel, g: Map<Word, Word>, len: nat) -> Outcome {
    if target < len {
        Ok((StepModel::Continue, ThreadModel { ip: target, ..t }, g))
    } else {
        Err(VmError::JumpOutOfRange { target, len: len as usize })
    }
}

/// The effect of an instruction of kind `k` whose operands evaluated to `ws`, in
/// thread `id` with state `t`, global memory `g`, in a program of `len`
/// instructions.
pub open spec fn body_spec(
    k: OpKind,
    ws: Seq<Word>,
    id: Word,
    t: ThreadModel,
    g: Map<Word, Word>,
    len: nat,
) -> Outcome {
    match k {
        OpKind::Nop => Ok((StepModel::Continue, t, g)),
        OpKind::Push => Ok((StepModel::Continue, push_spec(t, ws[0]), g)),
        OpKind::Store => match write_spec(ws[0], ws[1], t, g) {
            Err(e) => Err(e),
            Ok((t2, g2)) => Ok((StepModel::Continue, t2, g2)),
        },
        OpKind::StoreGlobal => match write_spec(to_global_spec(ws[0]), ws[1], t, g) {
            Err(e) => Err(e),
            Ok((t2, g2)) => Ok((StepModel::Continue, t2, g2)),
        },
        OpKind::Load => match read_spec(ws[0], t, g) {
            Err(e) => Err(e),
            Ok(v) => Ok((StepModel::Continue, push_spec(t, v), g)),
        },
        OpKind::Add => Ok((StepModel::Continue, push_spec(t, ws[0].wrapping_add(ws[1])), g)),
        OpKind::Sub => Ok((StepModel::Continue, push_spec(t, ws[0].wrapping_sub(ws[1])), g)),
        OpKind::Mul => Ok((StepModel::Continue, push_spec(t, ws[0].wrapping_mul(ws[1])), g)),
        OpKind::Div => if ws[1] == 0 {
            Err(VmError::DivisionByZero { dividend: ws[0] })
        } else {
            Ok((StepModel::Continue, push_spec(t, ws[0] / ws[1]), g))
        },
        OpKind::ShiftLeft => if ws[1] >= 64 {
            Err(VmError::ShiftTooLarge { amount: ws[1] })
        } else {
            Ok((StepModel::Continue, push_spec(t, ws[0] << ws[1]), g))
        },
        OpKind::Jump => jump_spec(ws[0], t, g, len),
        OpKind::JumpEq => if ws[0] == ws[1] {
            jump_spec(ws[2], t, g, len)
        } else {
            Ok((StepModel::Continue, t, g))
        },
        OpKind::Fork => if ws[0] < len {
            Ok((StepModel::Fork(ThreadModel { ip: ws[0], ..push_spec(t, id) }), t, g))
        } else {
            Err(VmError::JumpOutOfRange { target: ws[0], len: len as usize })
        },
        OpKind::Join => Ok((StepModel::Join(ws[0]), t, g)),
        OpKind::ThreadFinish => Ok((StepModel::Done(ThreadResult::Finish(ws[0])), t, g)),
        OpKind::Exit => Ok((StepModel::Done(ThreadResult::Exit(ws[0])), t, g)),
        OpKind::AssertEq => if ws[0] == ws[1] {
            Ok((StepModel::Continue, t, g))
        } else {
            Err(VmError::AssertionFailed { left: ws[0], right: ws[1] })
        },
        OpKind::Debug => Ok((StepModel::Debug, t, g)),
    }
}

/// Runs `op`: its operands are evaluated first to last, then its body runs on
/// their values.
pub open spec fn execute_spec(
    op: OpCode,
    id: Word,
    t: ThreadModel,
    g: Map<Word, Word>,
    len: nat,
) -> Outcome {
    match eval_all(op.spec_args(), id, t, g) {
        Err(e) => Err(e),
        Ok((ws, t1)) => body_spec(op.spec_kind(), ws, id, t1, g, len),
    }
}

/// One step of thread `id` in `ops`: past the end the thread exits with 0;
/// otherwise the instruction pointer moves on and the instruction runs.
pub open spec fn step_spec(ops: Seq<OpCode>, id: Word, t: ThreadModel, g: Map<Word, Word>) -> Outcome {
    if t.ip >= ops.len() {
        Ok((StepModel::Done(ThreadResult::Exit(0)), t, g))
    } else {
        execute_spec(ops[t.ip as int], id, ThreadModel { ip: (t.ip + 1) as Word, ..t }, g, ops.len())
    }
}

/// What a joining thread does with the result of the thread it joined: an exit
/// ends it with the same code, a finished value is pushed.
pub open spec fn join_spec(t: ThreadModel, child: ThreadResult) -> (Option<ThreadResult>, ThreadModel) {
    match child {
        ThreadResult::Exit(c) => (Some(ThreadResult::Exit(c)), t),
        ThreadResult::Finish(v) => (None, push_spec(t, v)),
    }
}

/// The word a process ends with when its root thread ends with `r`.
pub open spec fn result_word(r: ThreadResult) -> Word {
    match r {
        ThreadResult::Exit(c) => c,
        ThreadResult::Finish(v) => v,
    }
}

/// The status a process reports to its host: its word truncated to 8 bits.
pub open spec fn exit_status(w: Word) -> u8 {
    (w % 256) as u8
}

/// The status a process whose root thread ended with `result` reports.
pub fn process_exit_code(result: ThreadResult) -> (r: u8)
    ensures
        r == exit_status(result_word(result)),
{
    let w = match result {
        ThreadResult::Exit(c) => c,
        ThreadResult::Finish(v) => v,
    };
    (w % 256) as u8
}

/// A running thread: its id and its state.
#[derive(Debug)]
pub struct ThreadCtx {
    pub id: Word,
    pub state: ThreadState,
}

impl ThreadCtx {
    pub fn new(id: Word, state: ThreadState) -> (r: ThreadCtx)
        ensures
            r.id == id,
            r.state@ == state@,
    {
        ThreadCtx { id, state }
    }

    /// Evaluates one operand.
    pub fn get(&mut self, val_sp: &ValSp, global: &GlobalMemory) -> (r: Result<Word, VmError>)
        ensures
            final(self).id == old(self).id,
            match eval_spec(*val_sp, old(self).id, old(self).state@, global@) {
                Ok((w, t)) => r == Ok::<Word, VmError>(w) && final(self).state@ == t,
                Err(e) => r == Err::<Word, VmError>(e),
            },
            final(self).state@.memory == old(self).state@.memory,
            final(self).state@.ip == old(self).state@.ip,
            r is Err && (val_sp is Pop || val_sp is Peek) ==> final(self).state@ == old(self).state@,
        decreases val_sp,
    {
        match val_sp {
            ValSp::Literal(v) => Ok(*v),
            ValSp::Pop => match self.state.stack.pop() {
                Some(v) => Ok(v),
                None => Err(VmError::PopFromEmptyStack),
            },
            ValSp::PopI(e) => {
                let i = self.get(e, global)?;
                let len = self.state.stack.len();
                if i >= len as u64 {
                    return Err(VmError::PopFromEmptyStack);
                }
                let index = len - 1 - i as usize;
                Ok(self.state.stack.remove(index))
            },
            ValSp::Peek => {
                let len = self.state.stack.len();
                if len == 0 {
                    return Err(VmError::PeekEmptyStack);
                }
                Ok(self.state.stack[len - 1])
            },
            ValSp::Memory(e) => {
                let addr = self.get(e, global)?;
                self.read_memory(addr, global)
            },
            ValSp::GlobalMemory(e) => {
                let addr = self.get(e, global)?;
                self.read_memory(to_global(addr), global)
            },
            ValSp::ThreadId => Ok(self.id),
        }
    }

    /// Reads memory: the thread's own for a local address, `global` otherwise.
    pub fn read_memory(&self, addr: Word, global: &GlobalMemory) -> (r: Result<Word, VmError>)
        ensures
            r == read_spec(addr, self.state@, global@),
    {
        match aligned(addr)? {
            Address::Local(a) => self.state.read_memory(a),
            Address::Global(a) => Ok(global.read(a)),
        }
    }

    /// Writes memory: the thread's own for a local address, `global` otherwise.
    pub fn write_memory(&mut self, addr: Word, val: Word, global: &mut GlobalMemory) -> (r: Result<
        (),
        VmError,
    >)
        ensures
            final(self).id == old(self).id,
            match write_spec(addr, val, old(self).state@, old(global)@) {
                Ok((t, g)) => r is Ok && final(self).state@ == t && final(global)@ == g,
                Err(e) => r == Err::<(), VmError>(e) && final(self).state@ == old(self).state@
                    && final(global)@ == old(global)@,
            },
    {
        match aligned(addr)? {
            Address::Local(a) => self.state.write_memory(a, val),
            Address::Global(a) => {
                global.write(a, val);
                Ok(())
            },
        }
    }

    /// Evaluates operands from first to last.
    pub fn get_all(&mut self, args: &Vec<ValSp>, global: &GlobalMemory) -> (r: Result<Vec<Word>, VmError>)
        ensures
            final(self).id == old(self).id,
            match eval_all(args@, old(self).id, old(self).state@, global@) {
                Ok((ws, t)) => r is Ok && r->Ok_0@ == ws && final(self).state@ == t,
                Err(e) => r == Err::<Vec<Word>, VmError>(e),
            },
            r is Ok ==> r->Ok_0@.len() == args@.len(),
    {
        let mut ws: Vec<Word> = Vec::new();
        let mut i: usize = 0;
        while i < args.len()
            invariant
                i <= args@.len(),
                ws@.len() == i,
                self.id == old(self).id,
                eval_all(args@.subrange(0, i as int), self.id, old(self).state@, global@) == Ok::<
                    (Seq<Word>, ThreadModel),
                    VmError,
                >((ws@, self.state@)),
            decreases args@.len() - i,
        {
            let ghost before = self.state@;
            let ghost pre = args@.subrange(0, i as int);
            let ghost next = args@.subrange(0, i as int + 1);
            assert(next.drop_last() =~= pre);
            assert(next.last() == args@[i as int]);
            match self.get(&args[i], global) {
                Ok(w) => {
                    ws.push(w);
                },
                Err(e) => {
                    proof {
                        lemma_eval_all_prefix_err(args@, i as int + 1, self.id, old(self).state@, global@);
                    }
                    return Err(e);
                },
            }
            i = i + 1;
        }
        assert(args@.subrange(0, i as int) =~= args@);
        Ok(ws)
    }

    /// Runs one instruction of `program`, after the instruction pointer has moved
    /// past it.
    pub fn execute(&mut self, op: &OpCode, program: &Program, global: &mut GlobalMemory) -> (r: Result<Step, VmError>)
        ensures
            final(self).id == old(self).id,
            match execute_spec(*op, old(self).id, old(self).state@, old(global)@, program@.len()) {
                Ok((s, t, g)) => r is Ok && r->Ok_0@ == s && final(self).state@ == t && final(global)@ == g,
                Err(e) => r is Err && r->Err_0 == e && final(global)@ == old(global)@,
            },
    {
        let ws = self.get_all(op.args(), global)?;
        let kind = op.kind();
        match kind {
            OpKind::Nop => {},
            OpKind::Push => {
                self.state.push(ws[0]);
            },
            OpKind::Store => {
                self.write_memory(ws[0], ws[1], global)?;
            },
            OpKind::StoreGlobal => {
                self.write_memory(to_global(ws[0]), ws[1], global)?;
            },
            OpKind::Load => {
                let v = self.read_memory(ws[0], global)?;
                self.state.push(v);
            },
            OpKind::Add => {
                self.state.push(ws[0].wrapping_add(ws[1]));
            },
            OpKind::Sub => {
                self.state.push(ws[0].wrapping_sub(ws[1]));
            },
            OpKind::Mul => {
                self.state.push(ws[0].wrapping_mul(ws[1]));
            },
            OpKind::Div => {
                if ws[1] == 0 {
                    return Err(VmError::DivisionByZero { dividend: ws[0] });
                }
                self.state.push(ws[0] / ws[1]);
            },
            OpKind::ShiftLeft => {
                if ws[1] >= 64 {
                    return Err(VmError::ShiftTooLarge { amount: ws[1] });
                }
                self.state.push(ws[0] << ws[1]);
            },
            OpKind::Jump => {
                self.state.jump_to(ws[0], program)?;
            },
            OpKind::JumpEq => {
                if ws[0] == ws[1] {
                    self.state.jump_to(ws[2], program)?;
                }
            },
            OpKind::Fork => {
                let mut fork_state = self.state.duplicate();
                fork_state.push(self.id);
                fork_state.jump_to(ws[0], program)?;
                return Ok(Step::Fork(fork_state));
            },
            OpKind::Join => {
                return Ok(Step::Join(ws[0]));
            },
            OpKind::ThreadFinish => {
                return Ok(Step::Done(ThreadResult::Finish(ws[0])));
            },
            OpKind::Exit => {
                return Ok(Step::Done(ThreadResult::Exit(ws[0])));
            },
            OpKind::AssertEq => {
                if ws[0] != ws[1] {
                    return Err(VmError::AssertionFailed { left: ws[0], right: ws[1] });
                }
            },
            OpKind::Debug => {
                return Ok(Step::Debug);
            },
        }
        Ok(Step::Continue)
    }

    /// Fetches and runs the next instruction of `program`; past its end the
    /// thread exits with 0.
    pub fn step(&mut self, program: &Program, global: &mut GlobalMemory) -> (r: Result<Step, VmError>)
        ensures
            final(self).id == old(self).id,
            match step_spec(program@, old(self).id, old(self).state@, old(global)@) {
                Ok((s, t, g)) => r is Ok && r->Ok_0@ == s && final(self).state@ == t && final(global)@ == g,
                Err(e) => r is Err && r->Err_0 == e && final(global)@ == old(global)@,
            },
    {
        let len = program.len();
        let ip = self.state.instruction_pointer;
        if ip >= len as u64 {
            return Ok(Step::Done(ThreadResult::Exit(0)));
        }
        let op = program.op(ip as usize);
        self.state.instruction_pointer = ip + 1;
        self.execute(op, program, global)
    }

    /// Completes a fork: the parent learns its child's id on its stack.
    pub fn resume_fork(&mut self, child_id: Word)
        ensures
            final(self).id == old(self).id,
            final(self).state@ == push_spec(old(self).state@, child_id),
    {
        self.state.push(child_id);
    }

    /// Completes a join with the joined thread's result: an exit ends this
    /// thread with the same code; a finished value is pushed.
    pub fn resume_join(&mut self, child: ThreadResult) -> (r: Option<ThreadResult>)
        ensures
            final(self).id == old(self).id,
            (r, final(self).state@) == join_spec(old(self).state@, child),
    {
        match child {
            ThreadResult::Exit(c) => Some(ThreadResult::Exit(c)),
            ThreadResult::Finish(v) => {
                self.state.push(v);
                None
            },
        }
    }
}

} // verus!
