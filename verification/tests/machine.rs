use superr::error::SuperrError;
use superr::instruction::Instruction;
use superr::program::Program;
use superr::vm::{DEFAULT_STEP_BUDGET, MEM_SIZE, VM};

fn program_of(instructions: Vec<Instruction>) -> Program {
    Program { instructions }
}

#[test]
fn execute_fills_memory_through_swaps() {
    let program = program_of(vec![
        Instruction::Load(3),
        Instruction::Swap(0, 1),
        Instruction::Load(3),
        Instruction::Swap(0, 2),
        Instruction::Load(3),
        Instruction::Swap(0, 3),
        Instruction::Load(3),
    ]);
    let mut vm = VM::new(4, DEFAULT_STEP_BUDGET);
    let out = vm.execute_program(program).unwrap();
    assert_eq!(vm.state, vec![3, 3, 3, 3]);
    assert_eq!(out, Vec::<u8>::new());
}

#[test]
fn execution_is_deterministic() {
    // Determinism: the same program twice gives the same memory and the
    // same output sequence.
    let program = program_of(vec![
        Instruction::Load(9),
        Instruction::Put(0),
        Instruction::Add(1, 0),
        Instruction::Inc(2),
        Instruction::Put(2),
        Instruction::XOR(1, 2),
    ]);
    let mut vm1 = VM::new(MEM_SIZE, DEFAULT_STEP_BUDGET);
    let mut vm2 = VM::new(MEM_SIZE, DEFAULT_STEP_BUDGET);
    let out1 = vm1.execute_program(program.duplicate()).unwrap();
    let out2 = vm2.execute_program(program.duplicate()).unwrap();
    assert_eq!(vm1.state, vm2.state);
    assert_eq!(out1, out2);
    assert_eq!(out1, vec![9, 1]);
}

#[test]
fn inc_wraps_around_after_256_steps() {
    // Wrap-around arithmetic: 256 increments return the cell to its value.
    let mut instructions = Vec::new();
    for _ in 0..256 {
        instructions.push(Instruction::Inc(2));
    }
    let mut vm = VM::new(4, DEFAULT_STEP_BUDGET);
    vm.execute_program(program_of(instructions)).unwrap();
    assert_eq!(vm.state, vec![0, 0, 0, 0]);

    // One short of the period leaves the cell one short.
    let mut instructions = Vec::new();
    for _ in 0..255 {
        instructions.push(Instruction::Inc(2));
    }
    let mut vm = VM::new(4, DEFAULT_STEP_BUDGET);
    vm.execute_program(program_of(instructions)).unwrap();
    assert_eq!(vm.state, vec![0, 0, 255, 0]);
}

#[test]
fn sub_never_fails_and_wraps() {
    // `Sub` wraps for any operand values instead of failing.
    let program = program_of(vec![
        Instruction::Load(5),
        Instruction::Swap(0, 1),
        Instruction::Sub(0, 1),
    ]);
    let mut vm = VM::new(4, DEFAULT_STEP_BUDGET);
    let r = vm.execute_program(program);
    assert!(r.is_ok());
    assert_eq!(vm.state, vec![251, 5, 0, 0]);
}

#[test]
fn jmp_past_the_end_halts() {
    let program = program_of(vec![Instruction::Inc(0), Instruction::Jmp(100)]);
    let mut vm = VM::new(4, DEFAULT_STEP_BUDGET);
    assert!(vm.execute_program(program).is_ok());
    assert_eq!(vm.state, vec![1, 0, 0, 0]);
}

#[test]
fn jmp_cycle_exceeds_step_budget() {
    let program = program_of(vec![Instruction::Jmp(0)]);
    let mut vm = VM::new(4, DEFAULT_STEP_BUDGET);
    let r = vm.execute_program(program);
    assert_eq!(r, Err(SuperrError::StepBudgetExceeded));
}

#[test]
fn compute_state_discards_output() {
    let program = program_of(vec![Instruction::Load(7), Instruction::Put(0)]);
    let st = VM::compute_state(&program, 4, DEFAULT_STEP_BUDGET).unwrap();
    assert_eq!(st, vec![7, 0, 0, 0]);

    let looping = program_of(vec![Instruction::Jmp(0)]);
    assert_eq!(VM::compute_state(&looping, 4, DEFAULT_STEP_BUDGET), None);
}

#[test]
fn reset_clears_the_machine() {
    let mut vm = VM::new(4, DEFAULT_STEP_BUDGET);
    vm.execute_program(program_of(vec![Instruction::Load(9)])).unwrap();
    assert_eq!(vm.state, vec![9, 0, 0, 0]);
    vm.reset();
    assert_eq!(vm.state, vec![0, 0, 0, 0]);
    assert_eq!(vm.pc, 0);
}

#[test]
fn validate_rejects_out_of_range_addresses() {
    assert_eq!(
        Instruction::Swap(0, 4).validate(4),
        Err(SuperrError::InvalidOperand)
    );
    assert_eq!(Instruction::Swap(0, 3).validate(4), Ok(()));
    assert_eq!(
        Instruction::Put(12).validate(12),
        Err(SuperrError::InvalidOperand)
    );
    assert_eq!(Instruction::Load(255).validate(1), Ok(()));
}
