use flock::memory::GlobalMemory;
use flock::rand::Rand;
use flock::remote::Peers;
use flock::spawner::Spawner;
use flock::state::ThreadState;
use flock::{Program, Step, ThreadCtx, ThreadResult, VmError};

/// Runs a thread to its end; a joined thread runs when it is joined.
fn run_thread(
    mut ctx: ThreadCtx,
    program: &Program,
    spawner: &mut Spawner<ThreadCtx>,
    global: &mut GlobalMemory,
) -> Result<ThreadResult, VmError> {
    loop {
        match ctx.step(program, global)? {
            Step::Continue | Step::Debug => {}
            Step::Done(r) => return Ok(r),
            Step::Fork(state) => {
                let (id, _) = spawner.allocate();
                spawner.register(id, ThreadCtx::new(id, state));
                ctx.resume_fork(id);
            }
            Step::Join(tid) => {
                let child = spawner.take(tid)?;
                let r = run_thread(child, program, spawner, global)?;
                if let Some(r) = ctx.resume_join(r) {
                    return Ok(r);
                }
            }
        }
    }
}

fn run_text(text: &str) -> Result<u64, VmError> {
    let program = Program::parse(text).expect("program parses");
    let mut spawner: Spawner<ThreadCtx> = Spawner::new(Rand::new(0), Peers::new());
    let mut global = GlobalMemory::new();
    let (root, _) = spawner.allocate();
    let ctx = ThreadCtx::new(root, ThreadState::new());
    match run_thread(ctx, &program, &mut spawner, &mut global)? {
        ThreadResult::Exit(c) => Ok(c),
        ThreadResult::Finish(v) => Ok(v),
    }
}

#[test]
fn add_two_pushed_values() {
    assert_eq!(run_text("PUSH 40\nPUSH 2\nADD $pop, $pop\nEXIT $pop"), Ok(42));
}

#[test]
fn store_then_load_local() {
    assert_eq!(run_text("PUSH 7\nSTORE 0x0, $pop\nLOAD 0x0\nEXIT $pop"), Ok(7));
}

#[test]
fn store_local_memory_has_one_entry_at_index_zero() {
    let program = Program::parse("PUSH 7\nSTORE 0x0, $pop").unwrap();
    let mut global = GlobalMemory::new();
    let mut ctx = ThreadCtx::new(1, ThreadState::new());
    assert!(matches!(ctx.step(&program, &mut global), Ok(Step::Continue)));
    assert!(matches!(ctx.step(&program, &mut global), Ok(Step::Continue)));
    assert_eq!(ctx.state.memory.len(), 1);
    assert_eq!(ctx.state.memory.get(&0), Some(&7));
    assert!(ctx.state.stack.is_empty());
}

#[test]
fn misaligned_store_fails() {
    let r = run_text("PUSH 1\nSTORE 0x1, $pop");
    assert_eq!(r, Err(VmError::MisalignedAddress(1)));
    assert_eq!(r.unwrap_err().message(), "Misaligned address: 0x1");
}

#[test]
fn fork_then_join_finished_child() {
    let text = "FORK :child\nJOIN $pop\nEXIT $pop\n:child\nTHREAD_FINISH 99";
    assert_eq!(run_text(text), Ok(99));
}

#[test]
fn exit_in_child_propagates() {
    let text = "FORK :child\nJOIN $pop\nEXIT 0\n:child\nEXIT 5";
    assert_eq!(run_text(text), Ok(5));
}

#[test]
fn child_sees_global_write() {
    let text = "STORE 0x8000000000000000, 11   # top bit set => global\nFORK :child\nJOIN $pop\nEXIT $pop\n:child\nLOAD 0x8000000000000000\nTHREAD_FINISH $pop";
    assert_eq!(run_text(text), Ok(11));
}

#[test]
fn jump_to_label() {
    assert_eq!(run_text("JUMP :tgt\nEXIT 1\n:tgt\nEXIT 0"), Ok(0));
}

#[test]
fn end_of_program_exits_zero() {
    assert_eq!(run_text("PUSH 3"), Ok(0));
}

#[test]
fn exit_propagates_through_two_joins() {
    let text = "FORK :a\nJOIN $pop\nEXIT 1\n:a\nFORK :b\nJOIN $pop\nTHREAD_FINISH 2\n:b\nEXIT 260";
    let code = run_text(text).unwrap();
    assert_eq!(code, 260);
    assert_eq!(flock::thread::process_exit_code(ThreadResult::Exit(code)), 4);
}

#[test]
fn child_changes_do_not_reach_parent() {
    let text = "PUSH 5\nSTORE 0x8, 1\nFORK :child\nJOIN $pop\nLOAD 0x8\nADD $pop, $pop\nADD $pop, $pop\nEXIT $pop\n:child\nNOP $pop\nSTORE 0x8, 100\nNOP $pop\nTHREAD_FINISH 10";
    // parent: stack [5], mem[1] = 1; child result 10 pushed, then load 1: 5 + 10 + 1
    assert_eq!(run_text(text), Ok(16));
}

#[test]
fn joining_twice_fails() {
    let text = "FORK :child\nPUSH $peek\nJOIN $pop\nJOIN $pop\n:child\nTHREAD_FINISH 1";
    let r = run_text(text);
    assert!(matches!(r, Err(VmError::JoinedUnknownThread(_))));
}

#[test]
fn joining_unknown_thread_fails() {
    assert_eq!(run_text("JOIN 12345"), Err(VmError::JoinedUnknownThread(12345)));
    assert_eq!(VmError::JoinedUnknownThread(12345).message(), "Joined unknown thread: 12345");
}

#[test]
fn fork_child_sees_parent_id_and_parent_gets_child_id() {
    let text = "FORK :child\nJOIN $peek\nSUB $pop, $pop\nEXIT $pop\n:child\nTHREAD_FINISH $tid";
    // The child finishes with its own id; the parent subtracts the child id from it.
    assert_eq!(run_text(text), Ok(0));
}
