use flock::memory::{aligned, to_global, Address, GlobalMemory};
use flock::state::ThreadState;
use flock::valsp::ValSp;
use flock::{Program, Step, ThreadCtx, ThreadResult, VmError};

fn ctx_with_stack(stack: &[u64]) -> ThreadCtx {
    let mut state = ThreadState::new();
    for w in stack {
        state.push(*w);
    }
    ThreadCtx::new(9, state)
}

fn run_single(text: &str, global: &mut GlobalMemory) -> (Result<Step, VmError>, ThreadCtx) {
    let program = Program::parse(text).unwrap();
    let mut ctx = ThreadCtx::new(9, ThreadState::new());
    loop {
        let r = ctx.step(&program, global);
        match r {
            Ok(Step::Continue) => {}
            other => return (other, ctx),
        }
    }
}

#[test]
fn address_locality() {
    assert_eq!(aligned(0), Ok(Address::Local(0)));
    assert_eq!(aligned(0x7fff_ffff_ffff_fff8), Ok(Address::Local(0x7fff_ffff_ffff_fff8)));
    assert_eq!(aligned(0x8000_0000_0000_0000), Ok(Address::Global(0x8000_0000_0000_0000)));
    assert_eq!(aligned(0x8000_0000_0000_0001), Err(VmError::MisalignedAddress(0x8000_0000_0000_0001)));
    assert_eq!(aligned(12), Err(VmError::MisalignedAddress(12)));
    assert_eq!(to_global(8), 0x8000_0000_0000_0008);
    assert_eq!(to_global(0x8000_0000_0000_0008), 0x8000_0000_0000_0008);
}

#[test]
fn operands_evaluate_left_to_right() {
    let mut global = GlobalMemory::new();
    let mut ctx = ctx_with_stack(&[10, 3]);
    let ws = ctx.get_all(&vec![ValSp::Pop, ValSp::Pop], &global).unwrap();
    assert_eq!(ws, vec![3, 10]);
    let program = Program::parse("SUB $pop, $pop").unwrap();
    let mut ctx = ctx_with_stack(&[10, 3]);
    assert!(matches!(ctx.step(&program, &mut global), Ok(Step::Continue)));
    assert_eq!(ctx.state.stack, vec![3u64.wrapping_sub(10)]);
}

#[test]
fn indexed_pop_counts_from_the_top() {
    let global = GlobalMemory::new();
    let mut ctx = ctx_with_stack(&[1, 2, 3]);
    assert_eq!(ctx.get(&ValSp::PopI(Box::new(ValSp::Literal(2))), &global), Ok(1));
    assert_eq!(ctx.state.stack, vec![2, 3]);
    assert_eq!(ctx.get(&ValSp::PopI(Box::new(ValSp::Literal(2))), &global), Err(VmError::PopFromEmptyStack));
}

#[test]
fn stack_errors() {
    let global = GlobalMemory::new();
    let mut ctx = ctx_with_stack(&[]);
    assert_eq!(ctx.get(&ValSp::Pop, &global), Err(VmError::PopFromEmptyStack));
    assert_eq!(ctx.get(&ValSp::Peek, &global), Err(VmError::PeekEmptyStack));
    assert_eq!(VmError::PopFromEmptyStack.message(), "Pop from empty stack");
    assert_eq!(VmError::PeekEmptyStack.message(), "Peek empty stack");
    let mut ctx = ctx_with_stack(&[4]);
    assert_eq!(ctx.get(&ValSp::Peek, &global), Ok(4));
    assert_eq!(ctx.state.stack, vec![4]);
    assert_eq!(ctx.get(&ValSp::ThreadId, &global), Ok(9));
}

#[test]
fn global_memory_reads_zero_until_written() {
    let mut global = GlobalMemory::new();
    assert_eq!(global.read(0x8000_0000_0000_0010), 0);
    global.write(0x8000_0000_0000_0008, 5);
    assert_eq!(global.read(0x8000_0000_0000_0010), 0);
    assert_eq!(global.read(0x8000_0000_0000_0008), 5);
    let mut ctx = ctx_with_stack(&[]);
    let v = ctx.get(&ValSp::Memory(Box::new(ValSp::Literal(0x8000_0000_0000_0100))), &global);
    assert_eq!(v, Ok(0));
}

#[test]
fn local_state_refuses_global_addresses() {
    let mut state = ThreadState::new();
    assert_eq!(state.read_memory(0x8000_0000_0000_0000), Err(VmError::GlobalAddressInState(0x8000_0000_0000_0000)));
    assert_eq!(state.write_memory(3, 1), Err(VmError::MisalignedAddress(3)));
    assert_eq!(state.write_memory(16, 1), Ok(()));
    assert_eq!(state.memory.get(&2), Some(&1));
    assert_eq!(state.read_memory(16), Ok(1));
    assert_eq!(state.read_memory(24), Ok(0));
    assert_eq!(
        VmError::GlobalAddressInState(0x8000_0000_0000_0000).message(),
        "Attempted to access global address in state: 0x8000000000000000"
    );
}

#[test]
fn store_global_sets_top_bit() {
    let mut global = GlobalMemory::new();
    let (r, _) = run_single("STORE_GLOBAL 0x10, 3\nPUSH $gmem[0x10]\nLOAD 0x8000000000000010\nEXIT $pop", &mut global);
    assert_eq!(global.read(0x8000_0000_0000_0010), 3);
    assert!(matches!(r, Ok(Step::Done(ThreadResult::Exit(3)))));
}

#[test]
fn arithmetic_wraps_and_checks() {
    let mut g = GlobalMemory::new();
    let (r, _) = run_single("ADD 0xffffffffffffffff, 2\nEXIT $pop", &mut g);
    assert!(matches!(r, Ok(Step::Done(ThreadResult::Exit(1)))));
    let (r, _) = run_single("MUL 0x8000000000000000, 2\nEXIT $pop", &mut g);
    assert!(matches!(r, Ok(Step::Done(ThreadResult::Exit(0)))));
    let (r, _) = run_single("DIV 7, 2\nEXIT $pop", &mut g);
    assert!(matches!(r, Ok(Step::Done(ThreadResult::Exit(3)))));
    let (r, _) = run_single("DIV 7, 0", &mut g);
    assert_eq!(r.unwrap_err(), VmError::DivisionByZero { dividend: 7 });
    let (r, _) = run_single("SHIFT_LEFT 3, 4\nEXIT $pop", &mut g);
    assert!(matches!(r, Ok(Step::Done(ThreadResult::Exit(48)))));
    let (r, _) = run_single("SHIFT_LEFT 1, 63\nEXIT $pop", &mut g);
    assert!(matches!(r, Ok(Step::Done(ThreadResult::Exit(0x8000_0000_0000_0000)))));
    let (r, _) = run_single("SHIFT_LEFT 1, 64", &mut g);
    assert_eq!(r.unwrap_err(), VmError::ShiftTooLarge { amount: 64 });
}

#[test]
fn jumps() {
    let mut g = GlobalMemory::new();
    let (r, _) = run_single("JUMP_EQ 1, 1, :yes\nEXIT 1\n:yes\nJUMP_EQ 1, 2, 0\nEXIT 2", &mut g);
    assert!(matches!(r, Ok(Step::Done(ThreadResult::Exit(2)))));
    let (r, _) = run_single("JUMP 5", &mut g);
    let e = r.unwrap_err();
    assert_eq!(e, VmError::JumpOutOfRange { target: 5, len: 1 });
    assert_eq!(e.message(), "Jump outside of program range: 5 >= 1");
}

#[test]
fn assert_eq_and_finish() {
    let mut g = GlobalMemory::new();
    let (r, _) = run_single("ASSERT_EQ 2, 3", &mut g);
    let e = r.unwrap_err();
    assert_eq!(e, VmError::AssertionFailed { left: 2, right: 3 });
    assert_eq!(e.message(), "Expected 2 to equal 3");
    let (r, _) = run_single("ASSERT_EQ 2, 2\nTHREAD_FINISH 8", &mut g);
    assert!(matches!(r, Ok(Step::Done(ThreadResult::Finish(8)))));
}

#[test]
fn fork_hands_out_child_state() {
    let mut g = GlobalMemory::new();
    let program = Program::parse("PUSH 4\nFORK 3\nNOP 0\nNOP 0").unwrap();
    let mut ctx = ThreadCtx::new(21, ThreadState::new());
    assert!(matches!(ctx.step(&program, &mut g), Ok(Step::Continue)));
    match ctx.step(&program, &mut g) {
        Ok(Step::Fork(child)) => {
            assert_eq!(child.stack, vec![4, 21]);
            assert_eq!(child.instruction_pointer, 3);
        }
        other => panic!("expected a fork, got {:?}", other),
    }
    assert_eq!(ctx.state.stack, vec![4]);
    assert_eq!(ctx.state.instruction_pointer, 2);
    ctx.resume_fork(77);
    assert_eq!(ctx.state.stack, vec![4, 77]);
    assert_eq!(ctx.resume_join(ThreadResult::Finish(6)), None);
    assert_eq!(ctx.state.stack, vec![4, 77, 6]);
    assert_eq!(ctx.resume_join(ThreadResult::Exit(3)), Some(ThreadResult::Exit(3)));
}

#[test]
fn debug_is_handed_to_the_host() {
    let mut g = GlobalMemory::new();
    let (r, ctx) = run_single("PUSH 1\nDEBUG", &mut g);
    assert!(matches!(r, Ok(Step::Debug)));
    assert_eq!(ctx.state.instruction_pointer, 2);
}

#[test]
fn debug_lines_show_top_first() {
    let mut state = ThreadState::new();
    state.push(255);
    state.push(16);
    assert_eq!(state.debug_lines(), vec!["0: 0x10 (16)".to_string(), "1: 0xff (255)".to_string()]);
    assert!(ThreadState::new().debug_lines().is_empty());
}

#[test]
fn failed_write_changes_nothing() {
    let mut global = GlobalMemory::new();
    let mut ctx = ctx_with_stack(&[1, 2]);
    assert_eq!(ctx.write_memory(0x8000_0000_0000_0001, 5, &mut global), Err(VmError::MisalignedAddress(0x8000_0000_0000_0001)));
    assert_eq!(ctx.state.stack, vec![1, 2]);
    assert!(ctx.state.memory.is_empty());
    assert_eq!(global.read(0x8000_0000_0000_0000), 0);
    assert_eq!(ctx.write_memory(0x8000_0000_0000_0008, 5, &mut global), Ok(()));
    assert_eq!(ctx.read_memory(0x8000_0000_0000_0008, &global), Ok(5));
    assert!(ctx.state.memory.is_empty());
}

#[test]
fn failed_pop_and_peek_keep_the_state() {
    let global = GlobalMemory::new();
    let mut ctx = ctx_with_stack(&[]);
    ctx.state.write_memory(8, 3).unwrap();
    assert_eq!(ctx.get(&ValSp::Pop, &global), Err(VmError::PopFromEmptyStack));
    assert_eq!(ctx.get(&ValSp::Peek, &global), Err(VmError::PeekEmptyStack));
    assert!(ctx.state.stack.is_empty());
    assert_eq!(ctx.state.memory.get(&1), Some(&3));
}
