//! The first, self-contained superoptimizer: random sampling over a small
//! instruction subset under a wall-clock timeout, on the default machine
//! configuration.

use vstd::prelude::*;

use crate::instruction::Instruction;
use crate::program::Program;
use crate::rng::rng_usize_inclusive;
use crate::vm::{spec_compute, DEFAULT_STEP_BUDGET, MEM_SIZE, VM};

verus! {

/// The sampling vocabulary of this searcher: `Load` with an immediate
/// below `max_num` (or zero when no other value is legal), or `Swap`,
/// `XOR`, `Inc` over the default memory.
pub open spec fn sampled_instr(i: Instruction, max_num: nat) -> bool {
    match i {
        Instruction::Load(v) => (v as nat) < max_num || v == 0,
        Instruction::Swap(a, b) => a < MEM_SIZE && b < MEM_SIZE,
        Instruction::XOR(a, b) => a < MEM_SIZE && b < MEM_SIZE,
        Instruction::Inc(a) => a < MEM_SIZE,
        _ => false,
    }
}

/// Every instruction of `s` is in the sampling vocabulary.
pub open spec fn sampled_seq(s: Seq<Instruction>, max_num: nat) -> bool {
    forall|i: int| 0 <= i < s.len() ==> sampled_instr(#[trigger] s[i], max_num)
}

/// The self-contained random searcher.  `timeout_secs` bounds the wall
/// time of one `optimize` call in whole seconds.
pub struct Superoptimizer {
    pub max_instructions: usize,
    pub max_num: usize,
    pub timeout_secs: u64,
}

impl Superoptimizer {
    /// Creates a searcher with the given bounds and timeout.
    pub fn new(max_instructions: usize, max_num: usize, timeout_secs: u64) -> (r: Self)
        ensures
            r.max_instructions == max_instructions,
            r.max_num == max_num,
            r.timeout_secs == timeout_secs,
    {
        Superoptimizer { max_instructions, max_num, timeout_secs }
    }

    /// Draws a random program: up to `max_instructions` instructions from
    /// the subset `Load`, `Swap`, `XOR`, `Inc` over the default memory,
    /// with `Load` immediates below `max_num`.
    #[verifier::loop_isolation(false)]
    fn generate_program(&self) -> (r: Program)
        ensures
            r.wf(MEM_SIZE as nat),
            r@.len() <= self.max_instructions,
            sampled_seq(r@, self.max_num as nat),
    {
        let mut program = Program::new();
        let amount = rng_usize_inclusive(0, self.max_instructions);
        let hi_imm: usize = if self.max_num == 0 {
            0
        } else if self.max_num - 1 < 255 {
            self.max_num - 1
        } else {
            255
        };
        let mut k: usize = 0;
        while k < amount
            invariant
                k <= amount,
                hi_imm <= 255,
                self.max_num == 0 ==> hi_imm == 0,
                self.max_num >= 1 ==> hi_imm < self.max_num,
                program@.len() == k,
                program.wf(MEM_SIZE as nat),
                sampled_seq(program@, self.max_num as nat),
            decreases amount - k,
        {
            let reg1 = rng_usize_inclusive(0, MEM_SIZE - 1);
            let reg2 = rng_usize_inclusive(0, MEM_SIZE - 1);
            let val = rng_usize_inclusive(0, hi_imm);
            let kind = rng_usize_inclusive(0, 3);
            let i = if kind == 0 {
                Instruction::Load(val as u8)
            } else if kind == 1 {
                Instruction::Swap(reg1, reg2)
            } else if kind == 2 {
                Instruction::XOR(reg1, reg2)
            } else {
                Instruction::Inc(reg1)
            };
            let ghost before = program@;
            program.instructions.push(i);
            proof {
                assert(sampled_instr(i, self.max_num as nat));
                assert(forall|x: int| 0 <= x < before.len() ==> program@[x] == before[x]);
                assert forall|x: int|
                    0 <= x < program@.len() implies (#[trigger] program@[x]).wf(
                    MEM_SIZE as nat,
                ) by {
                    if x < before.len() {
                        assert(program@[x] == before[x]);
                    }
                }
            }
            k = k + 1;
        }
        program
    }

    /// Samples random programs until the timeout runs out, keeping the
    /// shortest one that reproduces the input's final memory.  The result
    /// is the input itself, or a strictly shorter equivalent drawn from
    /// the sampling vocabulary within the instruction cap.
    #[verifier::loop_isolation(false)]
    pub fn optimize(&self, input: Program) -> (r: Program)
        requires
            input.wf(MEM_SIZE as nat),
        ensures
            r.wf(MEM_SIZE as nat),
            r@.len() <= input@.len(),
            r@ == input@ || (r@.len() < input@.len() && sampled_seq(r@, self.max_num as nat)
                && r@.len() <= self.max_instructions),
            spec_compute(r@, MEM_SIZE as nat, DEFAULT_STEP_BUDGET as nat) == spec_compute(
                input@,
                MEM_SIZE as nat,
                DEFAULT_STEP_BUDGET as nat,
            ),
    {
        let started = crate::time::monotonic_now();
        let target = match VM::compute_state(&input, MEM_SIZE, DEFAULT_STEP_BUDGET) {
            Some(t) => t,
            None => {
                // The input itself overruns the step budget; there is no
                // target memory to search for.
                return input;
            },
        };
        let ghost input_view = input@;
        let mut shortest = input;
        let mut fuel: u64 = 0;
        while fuel < u64::MAX
            invariant
                shortest.wf(MEM_SIZE as nat),
                shortest@.len() <= input_view.len(),
                shortest@ == input_view || (shortest@.len() < input_view.len() && sampled_seq(
                    shortest@,
                    self.max_num as nat,
                ) && shortest@.len() <= self.max_instructions),
                spec_compute(shortest@, MEM_SIZE as nat, DEFAULT_STEP_BUDGET as nat) == Some(
                    target@,
                ),
            decreases u64::MAX - fuel,
        {
            let program = self.generate_program();
            let state = VM::compute_state(&program, MEM_SIZE, DEFAULT_STEP_BUDGET);
            match state {
                Some(st) => {
                    if st == target && program.len() < shortest.len() {
                        proof {
                            assert(st@ =~= target@);
                        }
                        shortest = program;
                    }
                },
                None => {},
            }
            if crate::time::elapsed_secs(&started) >= self.timeout_secs {
                return shortest;
            }
            fuel = fuel + 1;
        }
        shortest
    }
}

} // verus!
