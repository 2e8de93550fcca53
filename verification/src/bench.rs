//! Raw machine throughput measurement: batches of random instructions,
//! executed back to back until stopped.

use vstd::prelude::*;

use core::sync::atomic::{AtomicBool, AtomicU64, Ordering};

use crate::optimizers::generate_instruction;
use crate::program::Program;
use crate::vm::{DEFAULT_STEP_BUDGET, MEM_SIZE, VM};

verus! {

/// Largest `Load` immediate of the benchmark workload.
pub const BENCH_MAX_NUM: u8 = 7;

/// Generates and executes batches of `buffer` random instructions on the
/// default machine until the stop flag is observed, adding each batch's
/// size to the shared counter.
#[verifier::loop_isolation(false)]
pub fn bench_loop(buffer: usize, counter: &AtomicU64, should_stop: &AtomicBool) {
    let mut vm = VM::new(MEM_SIZE, DEFAULT_STEP_BUDGET);
    let mut fuel: u64 = 0;
    while fuel < u64::MAX
        invariant
            vm.wf(),
            vm.mem_size == MEM_SIZE,
        decreases u64::MAX - fuel,
    {
        if should_stop.load(Ordering::Relaxed) {
            return ;
        }
        let mut program = Program::new();
        let mut k: usize = 0;
        while k < buffer
            invariant
                k <= buffer,
                program.wf(MEM_SIZE as nat),
            decreases buffer - k,
        {
            let i = generate_instruction(MEM_SIZE, BENCH_MAX_NUM);
            let ghost before = program@;
            program.instructions.push(i);
            proof {
                assert forall|x: int|
                    0 <= x < program@.len() implies (#[trigger] program@[x]).wf(
                    MEM_SIZE as nat,
                ) by {
                    if x < before.len() {
                        assert(program@[x] == before[x]);
                    }
                }
            }
            k = k + 1;
        }
        let _ = vm.execute_program(program);
        counter.fetch_add(buffer as u64, Ordering::Relaxed);
        fuel = fuel + 1;
    }
}

} // verus!
