use flock::bytecode::{ByteCode, ConditionFlags, OpCode, FORK_BIT, ZERO_BIT};
use flock::rand::Rand;
use flock::spawner::{placement, Placement, Spawner};
use flock::remote::Peers;
use flock::task::{ControlFlow, Execution, ExecutionError, Task};
use flock::VmError;

fn run(ops: Vec<OpCode>) -> (Result<Execution, ExecutionError>, Task) {
    let code = ByteCode::from(ops);
    let mut task = Task::new();
    let r = task.run(&code, 1000);
    (r, task)
}

#[test]
fn push_add_store() {
    let (r, t) = run(vec![OpCode::Push(2), OpCode::Push(i64::MAX), OpCode::Add, OpCode::Store(8)]);
    assert_eq!(r, Ok(Execution::Store { addr: 8, value: i64::MIN + 1 }));
    assert!(t.stack().is_empty());
    assert_eq!(t.program_counter(), 4);
}

#[test]
fn empty_program_terminates() {
    let (r, _) = run(vec![]);
    assert_eq!(r, Ok(Execution::Terminated));
}

#[test]
fn pop_on_empty_stack_fails() {
    let (r, _) = run(vec![OpCode::Pop]);
    assert_eq!(r, Err(ExecutionError::PopFromEmptyStack));
}

#[test]
fn conditional_jump_on_zero() {
    let zero = ConditionFlags::from_bits_truncate(ZERO_BIT);
    let ops = vec![OpCode::Push(0), OpCode::Jump(zero, Some(3)), OpCode::Halt, OpCode::Push(7), OpCode::Store(0)];
    let (r, _) = run(ops);
    assert_eq!(r, Ok(Execution::Store { addr: 0, value: 7 }));
    let ops = vec![OpCode::Push(1), OpCode::Jump(zero, Some(3)), OpCode::Halt, OpCode::Push(7), OpCode::Store(0)];
    let (r, t) = run(ops);
    assert_eq!(r, Ok(Execution::Terminated));
    assert_eq!(t.stack(), &vec![1]);
}

#[test]
fn jump_without_flags_is_taken_on_empty_stack() {
    let (r, t) = run(vec![OpCode::Jump(ConditionFlags::empty(), Some(2)), OpCode::Panic, OpCode::Halt]);
    assert_eq!(r, Ok(Execution::Terminated));
    assert_eq!(t.program_counter(), 3);
}

#[test]
fn zero_flag_jump_needs_a_stack_top() {
    let zero = ConditionFlags::from_bits_truncate(ZERO_BIT);
    let (r, _) = run(vec![OpCode::Jump(zero, Some(0))]);
    assert_eq!(r, Err(ExecutionError::PeekFromEmptyStack));
}

#[test]
fn fork_flag_jump_only_in_forked_task() {
    let fork = ConditionFlags::from_bits_truncate(FORK_BIT);
    let code = ByteCode::from(vec![OpCode::Push(5), OpCode::Jump(fork, Some(3)), OpCode::Halt, OpCode::Fork]);
    let mut task = Task::new();
    assert_eq!(task.run(&code, 100), Ok(Execution::Terminated));
    let mut child = Task::new().fork();
    assert!(child.forked());
    assert_eq!(child.run(&code, 100), Ok(Execution::Fork));
}

#[test]
fn flags_keep_known_bits() {
    assert_eq!(ConditionFlags::from_bits_truncate(0xff).bits(), 0b11);
    assert!(ConditionFlags::from_bits_truncate(3).contains(ConditionFlags::from_bits_truncate(ZERO_BIT)));
    assert!(!ConditionFlags::empty().contains(ConditionFlags::from_bits_truncate(FORK_BIT)));
}

#[test]
fn subroutine_and_return() {
    let ops = vec![
        OpCode::JumpToSubroutine(Some(3)),
        OpCode::Push(1),
        OpCode::Halt,
        OpCode::Return,
    ];
    let (r, t) = run(ops);
    assert_eq!(r, Ok(Execution::Terminated));
    assert_eq!(t.stack(), &vec![1]);
}

#[test]
fn bury_and_dredge() {
    let ops = vec![OpCode::Push(1), OpCode::Push(2), OpCode::Push(3), OpCode::Bury(2), OpCode::Halt];
    let (_, t) = run(ops);
    assert_eq!(t.stack(), &vec![3, 1, 2]);
    let ops = vec![OpCode::Push(1), OpCode::Push(2), OpCode::Push(3), OpCode::Dredge(2), OpCode::Halt];
    let (_, t) = run(ops);
    assert_eq!(t.stack(), &vec![2, 3, 1]);
    let (r, _) = run(vec![OpCode::Push(1), OpCode::Bury(1)]);
    assert_eq!(r, Err(ExecutionError::BuryOutOfRange(1)));
    let (r, _) = run(vec![OpCode::Push(1), OpCode::Dredge(1)]);
    assert_eq!(r, Err(ExecutionError::DredgeOutOfRange(1)));
    let (r, _) = run(vec![OpCode::Dredge(0)]);
    assert_eq!(r, Err(ExecutionError::DredgeOutOfRange(0)));
}

#[test]
fn duplicate_join_and_relative_access() {
    let (r, t) = run(vec![OpCode::Push(4), OpCode::Duplicate, OpCode::Join(2)]);
    assert_eq!(r, Ok(Execution::Join { task_id: 4, count: 2 }));
    assert_eq!(t.stack(), &vec![4]);
    let (r, _) = run(vec![OpCode::Push(9), OpCode::Push(-1), OpCode::StoreRelative(10)]);
    assert_eq!(r, Ok(Execution::Store { addr: 9, value: 9 }));
    let (r, _) = run(vec![OpCode::Push(6), OpCode::LoadRelative(10)]);
    assert_eq!(r, Ok(Execution::Load { addr: 16 }));
    let (r, _) = run(vec![OpCode::Load(3)]);
    assert_eq!(r, Ok(Execution::Load { addr: 3 }));
}

#[test]
fn panic_and_budget() {
    let (r, _) = run(vec![OpCode::Panic]);
    assert_eq!(r, Err(ExecutionError::ExplicitPanic));
    let code = ByteCode::from(vec![OpCode::Push(0), OpCode::Jump(ConditionFlags::empty(), Some(0))]);
    let mut task = Task::new();
    assert_eq!(task.run(&code, 50), Err(ExecutionError::UnableToProgress));
}

#[test]
fn dump_debug_stops_and_resumes() {
    let code = ByteCode::from(vec![OpCode::DumpDebug, OpCode::Halt]);
    let mut task = Task::new();
    assert_eq!(task.tick(&code), Ok(ControlFlow::Return(Execution::DumpDebug)));
    assert_eq!(task.run(&code, 10), Ok(Execution::Terminated));
}

#[test]
fn surrounding_clips_to_the_program() {
    let code = ByteCode::new(vec![OpCode::Halt, OpCode::Pop, OpCode::Add, OpCode::Fork]);
    let s = code.surrounding(1, 1);
    assert_eq!(s, vec![(0, OpCode::Halt), (1, OpCode::Pop), (2, OpCode::Add)]);
    let s = code.surrounding(3, 5);
    assert_eq!(s.len(), 4);
    assert_eq!(code.get(3), Some(&OpCode::Fork));
    assert_eq!(code.get(4), None);
}

#[test]
fn rand_derivation_is_deterministic_and_name_dependent() {
    let r = Rand::new(7);
    let a = r.get("thread_id").word();
    let b = Rand::new(7).get("thread_id").word();
    let c = r.get("other").word();
    assert_eq!(a, b);
    assert_ne!(a, c);
    assert_ne!(a, 7);
    assert_eq!(r.get_bytes(b"thread_id").word(), a);
}

#[test]
fn select_picks_by_seed_modulo() {
    let nodes = [10, 20, 30];
    assert_eq!(Rand::new(4).select(&nodes), Some(&20));
    let none: [u8; 0] = [];
    assert_eq!(Rand::new(4).select(&none), None);
    assert_eq!(Rand::new(u64::MAX).select(&none), None);
}

#[test]
fn spawner_ids_are_distinct_and_joined_once() {
    let mut s: Spawner<u32> = Spawner::new(Rand::new(1), Peers::new());
    let (a, pa) = s.allocate();
    let (b, pb) = s.allocate();
    assert_ne!(a, b);
    assert_eq!(pa, Placement::Local);
    assert_eq!(pb, Placement::Local);
    s.register(a, 1);
    assert_eq!(s.take(a), Ok(1));
    assert_eq!(s.take(a), Err(VmError::JoinedUnknownThread(a)));
}

#[test]
fn placement_by_id_modulo_node_count() {
    assert_eq!(placement(9, 0), Placement::Local);
    assert_eq!(placement(9, 2), Placement::Local);
    assert_eq!(placement(10, 2), Placement::Remote(0));
    assert_eq!(placement(11, 2), Placement::Remote(1));
    assert_eq!(placement(u64::MAX, usize::MAX), Placement::Remote(usize::MAX - 1));
}
