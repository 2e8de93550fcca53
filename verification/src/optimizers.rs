//! The search framework: the shared search context and the candidate
//! generator common to all strategies.
//!
//! The context owns the best-known program.  It is never exposed for direct
//! mutation: readers ask for its length, and the only write is the atomic
//! replace-if-shorter step, so the output of a search can never be worse
//! than its input.

use vstd::prelude::*;

use core::sync::atomic::{AtomicBool, AtomicU64, Ordering};

use crate::instruction::Instruction;
use crate::program::Program;
use crate::rng::{rand_u8_inclusive, rand_usize_inclusive};
use crate::vm::{spec_compute, State, VM};

pub mod diffing;
pub mod exhaustive;
pub mod ga;
pub mod random_search;

verus! {

/// The search vocabulary: `Load` with an immediate up to `max_num`, and
/// the six register operations over the configured memory.  `Put` and
/// `Jmp` are never searched or generated.
pub open spec fn wf_search(i: Instruction, mem_size: nat, max_num: nat) -> bool {
    match i {
        Instruction::Load(v) => v <= max_num,
        Instruction::Swap(a, b) => a < mem_size && b < mem_size,
        Instruction::XOR(a, b) => a < mem_size && b < mem_size,
        Instruction::Inc(a) => a < mem_size,
        Instruction::Decr(a) => a < mem_size,
        Instruction::Add(a, b) => a < mem_size && b < mem_size,
        Instruction::Sub(a, b) => a < mem_size && b < mem_size,
        Instruction::Put(_) => false,
        Instruction::Jmp(_) => false,
    }
}

/// A candidate whose every instruction is in the vocabulary.
pub open spec fn wf_search_seq(s: Seq<Instruction>, mem_size: nat, max_num: nat) -> bool {
    forall|i: int| 0 <= i < s.len() ==> wf_search(#[trigger] s[i], mem_size, max_num)
}

/// The mutable state shared across one search run: the target memory, the
/// search bounds, the best-known program, a candidate counter and a
/// cancellation flag.
pub struct OptimizerArgs<'a> {
    /// Target memory which an equivalent program must reproduce.
    pub target: State,
    /// Length of the program being optimized.
    pub length: usize,
    /// Largest immediate a generated `Load` may carry.
    pub max_num: u8,
    /// Cap on the length of generated candidate programs.
    pub max_instructions: usize,
    /// Number of memory cells of the machine configuration.
    pub mem_size: usize,
    /// Step budget for every candidate execution.
    pub step_budget: u64,
    /// The best-known program; never longer than the input.
    pub optimal: Program,
    /// Count of evaluated candidates, read by the progress reporter.
    pub counter: &'a AtomicU64,
    /// Cooperative cancellation flag, polled once per candidate.
    pub should_stop: &'a AtomicBool,
}

impl<'a> OptimizerArgs<'a> {
    /// The context invariant: the machine configuration is sane and the
    /// best-known program is equivalent to the target and never longer
    /// than the input.
    pub open spec fn wf(self) -> bool {
        &&& 1 <= self.mem_size <= 0x1000
        &&& self.target@.len() == self.mem_size
        &&& self.optimal.wf(self.mem_size as nat)
        &&& self.optimal@.len() <= self.length
        &&& spec_compute(self.optimal@, self.mem_size as nat, self.step_budget as nat) == Some(
            self.target@,
        )
    }

    /// The fixed configuration of two context values is the same; only the
    /// best-known program may differ.
    pub open spec fn same_config(self, other: Self) -> bool {
        &&& self.target == other.target
        &&& self.length == other.length
        &&& self.max_num == other.max_num
        &&& self.max_instructions == other.max_instructions
        &&& self.mem_size == other.mem_size
        &&& self.step_budget == other.step_budget
        &&& self.counter == other.counter
        &&& self.should_stop == other.should_stop
    }

    /// Builds the context for one run.
    pub fn new(
        target: State,
        max_num: u8,
        max_instructions: usize,
        mem_size: usize,
        step_budget: u64,
        optimal: Program,
        counter: &'a AtomicU64,
        should_stop: &'a AtomicBool,
    ) -> (r: OptimizerArgs<'a>)
        requires
            1 <= mem_size <= 0x1000,
            target@.len() == mem_size,
            optimal.wf(mem_size as nat),
            spec_compute(optimal@, mem_size as nat, step_budget as nat) == Some(target@),
        ensures
            r.wf(),
            r.target == target,
            r.length == optimal@.len(),
            r.max_num == max_num,
            r.max_instructions == max_instructions,
            r.mem_size == mem_size,
            r.step_budget == step_budget,
            r.optimal == optimal,
            r.counter == counter,
            r.should_stop == should_stop,
    {
        let length = optimal.len();
        OptimizerArgs {
            target,
            length,
            max_num,
            max_instructions,
            mem_size,
            step_budget,
            optimal,
            counter,
            should_stop,
        }
    }

    /// Length of the best-known program at this point of the run.
    pub fn current_optimal_length(&self) -> (r: usize)
        ensures
            r == self.optimal@.len(),
    {
        self.optimal.len()
    }

    /// Polls the cooperative cancellation flag.  The flag is set by another
    /// thread, so nothing is known about the answer; the search logic must
    /// be correct whichever value comes back.
    pub fn should_stop(&self) -> bool {
        self.should_stop.load(Ordering::Relaxed)
    }

    /// Counts one evaluated candidate, for progress telemetry only.
    pub fn note_candidate(&self) {
        self.counter.fetch_add(1, Ordering::Relaxed);
    }

    /// The atomic replace step: installs `candidate` as the best-known
    /// program exactly when it reproduces the target memory and is strictly
    /// shorter than the current best.
    pub fn try_replace_if_shorter(&mut self, candidate: Program) -> (r: bool)
        requires
            old(self).wf(),
            candidate.wf(old(self).mem_size as nat),
        ensures
            final(self).wf(),
            final(self).same_config(*old(self)),
            final(self).optimal@.len() <= old(self).optimal@.len(),
            r <==> (spec_compute(
                candidate@,
                old(self).mem_size as nat,
                old(self).step_budget as nat,
            ) == Some(old(self).target@) && candidate@.len() < old(self).optimal@.len()),
            r ==> final(self).optimal == candidate,
            !r ==> final(self).optimal == old(self).optimal,
    {
        if candidate.len() >= self.optimal.len() {
            return false;
        }
        match VM::compute_state(&candidate, self.mem_size, self.step_budget) {
            Some(st) => {
                if st == self.target {
                    proof {
                        assert(st@ =~= self.target@);
                    }
                    self.optimal = candidate;
                    true
                } else {
                    proof {
                        assert(st@ != self.target@ ==> spec_compute(
                            candidate@,
                            self.mem_size as nat,
                            self.step_budget as nat,
                        ) != Some(self.target@));
                        if st@ == self.target@ {
                            assert(st == self.target);
                        }
                    }
                    false
                }
            },
            None => false,
        }
    }
}

/// Runs the selected strategy over a fresh context and hands the context
/// back, together with whether the strategy exhausted its search space
/// (only the exhaustive strategy ever does).
pub fn run_strategy<'a>(kind: crate::cli::OptimizerType, args: OptimizerArgs<'a>) -> (r: (
    OptimizerArgs<'a>,
    bool,
))
    requires
        args.wf(),
    ensures
        r.0.wf(),
        r.0.same_config(args),
        r.0.optimal@.len() <= args.optimal@.len(),
        r.0.optimal == args.optimal || r.0.optimal@.len() < args.optimal@.len(),
        kind is Diffing ==> r.0.optimal == args.optimal,
        kind is RandomSearch ==> (r.0.optimal == args.optimal || wf_search_seq(
            r.0.optimal@,
            args.mem_size as nat,
            args.max_num as nat,
        )),
        r.1 ==> kind is Exhaustive && (r.0.optimal == args.optimal || (wf_search_seq(
            r.0.optimal@,
            args.mem_size as nat,
            args.max_num as nat,
        ) && 1 <= r.0.optimal@.len() <= args.max_instructions)) && forall|s: Seq<Instruction>|
            #![auto]
            wf_search_seq(s, args.mem_size as nat, args.max_num as nat) && 1 <= s.len()
                <= args.max_instructions && spec_compute(
                s,
                args.mem_size as nat,
                args.step_budget as nat,
            ) == Some(args.target@) ==> r.0.optimal@.len() <= s.len(),
{
    match kind {
        crate::cli::OptimizerType::RandomSearch => {
            let mut o = crate::optimizers::random_search::RandomSearchOptimizer::new(args);
            o.worker_loop();
            (o.args, false)
        },
        crate::cli::OptimizerType::Exhaustive => {
            let mut o = crate::optimizers::exhaustive::ExhaustiveOptimizer::new(args);
            let completed = o.start_optimization();
            (o.args, completed)
        },
        crate::cli::OptimizerType::Diffing => {
            let mut o = crate::optimizers::diffing::DiffingOptimizer::new(args);
            o.worker_loop();
            (o.args, false)
        },
        crate::cli::OptimizerType::Genetic => {
            let mut o = crate::optimizers::ga::GeneticOptimizer::new(args);
            o.worker_loop();
            (o.args, false)
        },
    }
}

/// The coordinator: computes the target memory of `input` once, builds the
/// search context and runs the chosen strategy until it exhausts its space
/// or observes cancellation.  The returned program always reproduces the
/// input's final memory and is never longer than the input: the safety
/// floor of every search.
pub fn optimize_program<'a>(
    input: &Program,
    kind: crate::cli::OptimizerType,
    max_instructions: usize,
    max_num: u8,
    mem_size: usize,
    step_budget: u64,
    counter: &'a AtomicU64,
    should_stop: &'a AtomicBool,
) -> (r: Program)
    requires
        1 <= mem_size <= 0x1000,
        input.wf(mem_size as nat),
    ensures
        r.wf(mem_size as nat),
        r@.len() <= input@.len(),
        r@ == input@ || r@.len() < input@.len(),
        spec_compute(r@, mem_size as nat, step_budget as nat) == spec_compute(
            input@,
            mem_size as nat,
            step_budget as nat,
        ),
{
    let target = match VM::compute_state(input, mem_size, step_budget) {
        Some(t) => t,
        None => {
            // The input overruns the step budget, so it has no target
            // memory; it is returned unchanged.
            return input.duplicate();
        },
    };
    let args = OptimizerArgs::new(
        target,
        max_num,
        max_instructions,
        mem_size,
        step_budget,
        input.duplicate(),
        counter,
        should_stop,
    );
    let (args, _completed) = run_strategy(kind, args);
    args.optimal
}

/// Draws one random instruction from the search vocabulary: `Load` with an
/// immediate up to `max_num`, or `Swap`, `XOR`, `Inc`, `Decr`, `Add`, `Sub`
/// over the configured memory.  `Put` and `Jmp` are never generated.
pub fn generate_instruction(mem_size: usize, max_num: u8) -> (r: Instruction)
    requires
        mem_size >= 1,
    ensures
        r.wf(mem_size as nat),
        wf_search(r, mem_size as nat, max_num as nat),
        r.encodable() || mem_size > 0x1000,
{
    let kind = rand_usize_inclusive(0, 6);
    if kind == 0 {
        let v = rand_u8_inclusive(0, max_num);
        Instruction::Load(v)
    } else if kind == 1 || kind == 2 || kind == 5 || kind == 6 {
        let a = rand_usize_inclusive(0, mem_size - 1);
        let b = rand_usize_inclusive(0, mem_size - 1);
        if kind == 1 {
            Instruction::Swap(a, b)
        } else if kind == 2 {
            Instruction::XOR(a, b)
        } else if kind == 5 {
            Instruction::Add(a, b)
        } else {
            Instruction::Sub(a, b)
        }
    } else {
        let a = rand_usize_inclusive(0, mem_size - 1);
        if kind == 3 {
            Instruction::Inc(a)
        } else {
            Instruction::Decr(a)
        }
    }
}

} // verus!
