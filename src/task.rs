//! The task machine that runs numeric bytecode.
use vstd::prelude::*;

use crate::bytecode::{ByteCode, ConditionFlags, OpCode, FORK_BIT, ZERO_BIT};

verus! {

/// Why a task stopped with an error.
#[derive(Debug, Clone, Copy, PartialEq, Eq, Structural)]
pub enum ExecutionError {
    PopFromEmptyStack,
    PeekFromEmptyStack,
    DredgeOutOfRange(i64),
    BuryOutOfRange(i64),
    UnknownTaskId(usize),
    /// The task ran for its whole budget of ticks without stopping.
    UnableToProgress,
    ExplicitPanic,
}

/// What a task asks of its runner when it stops.
#[derive(Debug, Clone, Copy, PartialEq, Eq, Structural)]
pub enum Execution {
    Terminated,
    Fork,
    Join { task_id: usize, count: usize },
    Store { addr: u64, value: i64 },
    Load { addr: u64 },
    /// Print the task's state; it may then be run on.
    DumpDebug,
}

/// Whether a task goes on after one tick.
#[derive(Debug, Clone, Copy, PartialEq, Eq, Structural)]
pub enum ControlFlow {
    Continue,
    Return(Execution),
}

/// The mathematical value of a task.
pub struct TaskModel {
    pub pc: usize,
    pub stack: Seq<i64>,
    pub forked: bool,
}

/// A task: program counter, stack, and whether it was forked.
#[derive(Debug, Clone)]
pub struct Task {
    pub(crate) program_counter: usize,
    pub(crate) stack: Vec<i64>,
    pub(crate) forked: bool,
}

impl View for Task {
    type V = TaskModel;

    closed spec fn view(&self) -> TaskModel {
        TaskModel { pc: self.program_counter, stack: self.stack@, forked: self.forked }
    }
}

pub type TickOutcome = Result<(ControlFlow, TaskModel), ExecutionError>;

/// The top of the stack, removed.
pub open spec fn pop_spec(t: TaskModel) -> Result<(i64, TaskModel), ExecutionError> {
    if t.stack.len() == 0 {
        Err(ExecutionError::PopFromEmptyStack)
    } else {
        Ok((t.stack.last(), TaskModel { stack: t.stack.drop_last(), ..t }))
    }
}

pub open spec fn push_task(t: TaskModel, v: i64) -> TaskModel {
    TaskModel { stack: t.stack.push(v), ..t }
}

pub open spec fn go_on(t: TaskModel) -> TickOutcome {
    Ok((ControlFlow::Continue, t))
}

pub open spec fn stop(e: Execution, t: TaskModel) -> TickOutcome {
    Ok((ControlFlow::Return(e), t))
}

/// A jump target given in the instruction, or else popped.
pub open spec fn target_spec(target: Option<i64>, t: TaskModel) -> Result<(i64, TaskModel), ExecutionError> {
    match target {
        Some(x) => Ok((x, t)),
        None => pop_spec(t),
    }
}

/// The effect of `op` on task `t`, whose program counter already points past it.
pub open spec fn op_spec(op: OpCode, t: TaskModel) -> TickOutcome {
    match op {
        OpCode::Push(v) => go_on(push_task(t, v)),
        OpCode::Add => match pop_spec(t) {
            Err(e) => Err(e),
            Ok((a, t1)) => match pop_spec(t1) {
                Err(e) => Err(e),
                Ok((b, t2)) => go_on(push_task(t2, a.wrapping_add(b))),
            },
        },
        OpCode::DumpDebug => stop(Execution::DumpDebug, t),
        OpCode::Jump(flags, target) => match target_spec(target, t) {
            Err(e) => Err(e),
            Ok((x, t1)) => if flags.spec_contains(ConditionFlags::from_bits_spec(ZERO_BIT))
                && t1.stack.len() == 0 {
                Err(ExecutionError::PeekFromEmptyStack)
            } else {
                let zero = flags.spec_contains(ConditionFlags::from_bits_spec(ZERO_BIT)) ==> t1.stack.last() == 0;
                let forked = flags.spec_contains(ConditionFlags::from_bits_spec(FORK_BIT)) ==> t1.forked;
                if zero && forked {
                    go_on(TaskModel { pc: x as usize, ..t1 })
                } else {
                    go_on(t1)
                }
            },
        },
        OpCode::JumpToSubroutine(target) => match target_spec(target, t) {
            Err(e) => Err(e),
            Ok((x, t1)) => go_on(TaskModel { pc: x as usize, ..push_task(t1, t1.pc as i64) }),
        },
        OpCode::Bury(index) => match pop_spec(t) {
            Err(e) => Err(e),
            Ok((v, t1)) => if t1.stack.len() < index as usize {
                Err(ExecutionError::BuryOutOfRange(index))
            } else {
                go_on(TaskModel { stack: t1.stack.insert(t1.stack.len() - index as usize, v), ..t1 })
            },
        },
        OpCode::Dredge(index) => if t.stack.len() == 0 || t.stack.len() - 1 < index as usize {
            Err(ExecutionError::DredgeOutOfRange(index))
        } else {
            let k = t.stack.len() - 1 - index as usize;
            go_on(TaskModel { stack: t.stack.remove(k).push(t.stack[k]), ..t })
        },
        OpCode::Duplicate => match pop_spec(t) {
            Err(e) => Err(e),
            Ok((v, t1)) => go_on(push_task(push_task(t1, v), v)),
        },
        OpCode::Return => match pop_spec(t) {
            Err(e) => Err(e),
            Ok((x, t1)) => go_on(TaskModel { pc: x as usize, ..t1 }),
        },
        OpCode::Pop => match pop_spec(t) {
            Err(e) => Err(e),
            Ok((_, t1)) => go_on(t1),
        },
        OpCode::Fork => stop(Execution::Fork, t),
        OpCode::Join(count) => match pop_spec(t) {
            Err(e) => Err(e),
            Ok((id, t1)) => stop(Execution::Join { task_id: id as usize, count: count as usize }, t1),
        },
        OpCode::Halt => stop(Execution::Terminated, t),
        OpCode::Store(addr) => match pop_spec(t) {
            Err(e) => Err(e),
            Ok((value, t1)) => stop(Execution::Store { addr, value }, t1),
        },
        OpCode::StoreRelative(base) => match pop_spec(t) {
            Err(e) => Err(e),
            Ok((offset, t1)) => match pop_spec(t1) {
                Err(e) => Err(e),
                Ok((value, t2)) => stop(Execution::Store { addr: base.wrapping_add(offset as u64), value }, t2),
            },
        },
        OpCode::Load(addr) => stop(Execution::Load { addr }, t),
        OpCode::LoadRelative(base) => match pop_spec(t) {
            Err(e) => Err(e),
            Ok((offset, t1)) => stop(Execution::Load { addr: base.wrapping_add(offset as u64) }, t1),
        },
        OpCode::Panic => Err(ExecutionError::ExplicitPanic),
    }
}

/// One tick: past the end of the program the task terminates; otherwise the
/// program counter moves on and the instruction runs.
pub open spec fn tick_spec(t: TaskModel, ops: Seq<OpCode>) -> TickOutcome {
    if t.pc >= ops.len() {
        stop(Execution::Terminated, t)
    } else {
        op_spec(ops[t.pc as int], TaskModel { pc: (t.pc + 1) as usize, ..t })
    }
}

/// Ticks until the task stops, for at most `n` ticks.
pub open spec fn run_spec(t: TaskModel, ops: Seq<OpCode>, n: nat) -> Result<(Execution, TaskModel), ExecutionError>
    decreases n,
{
    if n == 0 {
        Err(ExecutionError::UnableToProgress)
    } else {
        match tick_spec(t, ops) {
            Err(e) => Err(e),
            Ok((ControlFlow::Return(x), t1)) => Ok((x, t1)),
            Ok((ControlFlow::Continue, t1)) => run_spec(t1, ops, (n - 1) as nat),
        }
    }
}

/// Material implication: `b` whenever `a`.
fn implies(a: bool, b: bool) -> (r: bool)
    ensures
        r == (a ==> b),
{
    if a {
        b
    } else {
        true
    }
}

impl Task {
    /// A task at the start of its program with an empty stack, not forked.
    pub fn new() -> (r: Task)
        ensures
            r@ == (TaskModel { pc: 0, stack: Seq::empty(), forked: false }),
    {
        Task { program_counter: 0, stack: Vec::new(), forked: false }
    }

    /// The same counter and stack, with the fork flag set.
    pub fn fork(&self) -> (r: Task)
        ensures
            r@ == (TaskModel { forked: true, ..self@ }),
    {
        Task { program_counter: self.program_counter, stack: self.stack.clone(), forked: true }
    }

    pub fn program_counter(&self) -> (r: usize)
        ensures
            r == self@.pc,
    {
        self.program_counter
    }

    pub fn stack(&self) -> (r: &Vec<i64>)
        ensures
            r@ == self@.stack,
    {
        &self.stack
    }

    pub fn forked(&self) -> (r: bool)
        ensures
            r == self@.forked,
    {
        self.forked
    }

    /// Runs the task until it stops, for at most `max_ticks` ticks; a task
    /// still running then fails with `UnableToProgress`.
    pub fn run(&mut self, bytecode: &ByteCode, max_ticks: u64) -> (r: Result<Execution, ExecutionError>)
        ensures
            match run_spec(old(self)@, bytecode@, max_ticks as nat) {
                Ok((x, t)) => r == Ok::<Execution, ExecutionError>(x) && final(self)@ == t,
                Err(e) => r == Err::<Execution, ExecutionError>(e),
            },
    {
        let mut left = max_ticks;
        while left > 0
            invariant
                run_spec(self@, bytecode@, left as nat) == run_spec(old(self)@, bytecode@, max_ticks as nat),
            decreases left,
        {
            if let ControlFlow::Return(execution) = self.tick(bytecode)? {
                return Ok(execution);
            }
            left = left - 1;
        }
        Err(ExecutionError::UnableToProgress)
    }

    /// Runs one instruction.
    pub fn tick(&mut self, bytecode: &ByteCode) -> (r: Result<ControlFlow, ExecutionError>)
        ensures
            match tick_spec(old(self)@, bytecode@) {
                Ok((c, t)) => r == Ok::<ControlFlow, ExecutionError>(c) && final(self)@ == t,
                Err(e) => r == Err::<ControlFlow, ExecutionError>(e),
            },
    {
        if self.program_counter >= bytecode.len() {
            return Ok(ControlFlow::Return(Execution::Terminated));
        }
        let op = match bytecode.get(self.program_counter) {
            Some(op) => *op,
            None => return Ok(ControlFlow::Return(Execution::Terminated)),
        };
        self.program_counter = self.program_counter + 1;

        match op {
            OpCode::Push(value) => {
                self.stack.push(value);
            },
            OpCode::Add => {
                let a = self.pop()?;
                let b = self.pop()?;
                self.stack.push(a.wrapping_add(b));
            },
            OpCode::DumpDebug => {
                return Ok(ControlFlow::Return(Execution::DumpDebug));
            },
            OpCode::Jump(flags, target) => {
                let target = match target {
                    None => self.pop()?,
                    Some(t) => t,
                };
                let zero_flag = flags.contains(ConditionFlags::from_bits_truncate(ZERO_BIT));
                let zero_holds = if zero_flag {
                    *self.peek()? == 0
                } else {
                    true
                };
                let forked_flag = flags.contains(ConditionFlags::from_bits_truncate(FORK_BIT));
                let should_jump = zero_holds && implies(forked_flag, self.forked);
                if should_jump {
                    self.program_counter = #[verifier::truncate] (target as usize);
                }
            },
            OpCode::JumpToSubroutine(target) => {
                let target = match target {
                    None => self.pop()?,
                    Some(t) => t,
                };
                self.stack.push(self.program_counter as i64);
                self.program_counter = #[verifier::truncate] (target as usize);
            },
            OpCode::Bury(index) => {
                let value = self.pop()?;
                let insert_index = match self.stack.len().checked_sub(index as usize) {
                    Some(i) => i,
                    None => return Err(ExecutionError::BuryOutOfRange(index)),
                };
                self.stack.insert(insert_index, value);
            },
            OpCode::Dredge(index) => {
                let len = self.stack.len();
                if len == 0 {
                    return Err(ExecutionError::DredgeOutOfRange(index));
                }
                let remove_index = match (len - 1).checked_sub(index as usize) {
                    Some(i) => i,
                    None => return Err(ExecutionError::DredgeOutOfRange(index)),
                };
                let value = self.stack.remove(remove_index);
                self.stack.push(value);
            },
            OpCode::Duplicate => {
                let value = self.pop()?;
                self.stack.push(value);
                self.stack.push(value);
            },
            OpCode::Pop => {
                self.pop()?;
            },
            OpCode::Return => {
                let target = self.pop()?;
                self.program_counter = #[verifier::truncate] (target as usize);
            },
            OpCode::Fork => {
                return Ok(ControlFlow::Return(Execution::Fork));
            },
            OpCode::Join(count) => {
                let task_id = self.pop()? as usize;
                return Ok(ControlFlow::Return(Execution::Join { task_id, count: count as usize }));
            },
            OpCode::Halt => {
                return Ok(ControlFlow::Return(Execution::Terminated));
            },
            OpCode::Store(addr) => {
                let value = self.pop()?;
                return Ok(ControlFlow::Return(Execution::Store { addr, value }));
            },
            OpCode::StoreRelative(base) => {
                let offset = self.pop()?;
                let addr = base.wrapping_add(offset as u64);
                let value = self.pop()?;
                return Ok(ControlFlow::Return(Execution::Store { addr, value }));
            },
            OpCode::Load(addr) => {
                return Ok(ControlFlow::Return(Execution::Load { addr }));
            },
            OpCode::LoadRelative(base) => {
                let offset = self.pop()?;
                let addr = base.wrapping_add(offset as u64);
                return Ok(ControlFlow::Return(Execution::Load { addr }));
            },
            OpCode::Panic => {
                return Err(ExecutionError::ExplicitPanic);
            },
        }
        Ok(ControlFlow::Continue)
    }

    fn pop(&mut self) -> (r: Result<i64, ExecutionError>)
        ensures
            match pop_spec(old(self)@) {
                Ok((v, t)) => r == Ok::<i64, ExecutionError>(v) && final(self)@ == t,
                Err(e) => r == Err::<i64, ExecutionError>(e) && final(self)@ == old(self)@,
            },
    {
        match self.stack.pop() {
            Some(v) => Ok(v),
            None => Err(ExecutionError::PopFromEmptyStack),
        }
    }

    fn peek(&self) -> (r: Result<&i64, ExecutionError>)
        ensures
            self@.stack.len() == 0 ==> r == Err::<&i64, ExecutionError>(ExecutionError::PeekFromEmptyStack),
            self@.stack.len() > 0 ==> r is Ok && *r->Ok_0 == self@.stack.last(),
    {
        let len = self.stack.len();
        if len == 0 {
            return Err(ExecutionError::PeekFromEmptyStack);
        }
        Ok(&self.stack[len - 1])
    }
}

} // verus!
