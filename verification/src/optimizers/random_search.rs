//! Random sampling: candidate programs drawn uniformly from the search
//! space, with an adaptive length bound that tightens on every improvement.

use vstd::prelude::*;

use crate::optimizers::{generate_instruction, wf_search_seq, OptimizerArgs};
use crate::program::Program;
use crate::rng::rand_usize_inclusive;

verus! {

/// The random-sampling strategy.  `max_instructions` is the adaptive bound:
/// it starts at the configured cap and drops to one below the best-known
/// length whenever a shorter equivalent is found, biasing later samples
/// toward ever-shorter candidates.
pub struct RandomSearchOptimizer<'a> {
    pub args: OptimizerArgs<'a>,
    pub max_instructions: usize,
}

impl<'a> RandomSearchOptimizer<'a> {
    /// Creates the strategy over a search context.
    pub fn new(args: OptimizerArgs<'a>) -> (r: Self)
        requires
            args.wf(),
        ensures
            r.args == args,
            r.args.wf(),
            r.max_instructions == args.max_instructions,
    {
        let max_instructions = args.max_instructions;
        RandomSearchOptimizer { args, max_instructions }
    }

    /// Length of the best-known program.
    pub fn current_optimal_length(&self) -> (r: usize)
        ensures
            r == self.args.optimal@.len(),
    {
        self.args.current_optimal_length()
    }

    /// Polls the cancellation flag.
    pub fn should_stop(&self) -> bool {
        self.args.should_stop()
    }

    /// Draws one whole candidate program: a uniformly random length up to
    /// the adaptive bound, each instruction drawn from the search
    /// vocabulary.
    pub fn generate_program(&self) -> (r: Program)
        requires
            self.args.mem_size >= 1,
        ensures
            r.wf(self.args.mem_size as nat),
            r@.len() <= self.max_instructions,
            wf_search_seq(r@, self.args.mem_size as nat, self.args.max_num as nat),
    {
        let mut program = Program::new();
        let amount = rand_usize_inclusive(0, self.max_instructions);
        let mut k: usize = 0;
        while k < amount
            invariant
                k <= amount <= self.max_instructions,
                self.args.mem_size >= 1,
                program.wf(self.args.mem_size as nat),
                wf_search_seq(program@, self.args.mem_size as nat, self.args.max_num as nat),
                program@.len() == k,
            decreases amount - k,
        {
            let i = generate_instruction(self.args.mem_size, self.args.max_num);
            let ghost before = program@;
            program.instructions.push(i);
            proof {
                assert(forall|x: int| 0 <= x < before.len() ==> program@[x] == before[x]);
            }
            k = k + 1;
        }
        program
    }

    /// The worker loop: sample, evaluate, replace on improvement, tighten
    /// the adaptive bound, poll cancellation; repeat.  The best-known
    /// program is left untouched unless a strictly shorter vocabulary
    /// candidate replaced it, and the adaptive bound never grows: after a
    /// replacement it sits one below the new best length.
    #[verifier::loop_isolation(false)]
    pub fn worker_loop(&mut self)
        requires
            old(self).args.wf(),
        ensures
            final(self).args.wf(),
            final(self).args.same_config(old(self).args),
            final(self).args.optimal@.len() <= old(self).args.optimal@.len(),
            final(self).args.optimal == old(self).args.optimal || (final(self).args.optimal@.len()
                < old(self).args.optimal@.len() && wf_search_seq(
                final(self).args.optimal@,
                old(self).args.mem_size as nat,
                old(self).args.max_num as nat,
            )),
            final(self).max_instructions <= old(self).max_instructions,
            final(self).max_instructions == old(self).max_instructions || (final(
                self).args.optimal@.len() > 0 && final(self).max_instructions + 1 == final(
                self).args.optimal@.len()) || (final(self).max_instructions == 0 && final(
                self).args.optimal@.len() == 0),
    {
        let mut fuel: u64 = 0;
        while fuel < u64::MAX
            invariant
                self.args.wf(),
                self.args.same_config(old(self).args),
                self.args.optimal@.len() <= old(self).args.optimal@.len(),
                self.args.optimal == old(self).args.optimal || (self.args.optimal@.len() < old(
                    self,
                ).args.optimal@.len() && wf_search_seq(
                    self.args.optimal@,
                    self.args.mem_size as nat,
                    self.args.max_num as nat,
                )),
                self.max_instructions <= old(self).max_instructions,
                self.max_instructions == old(self).max_instructions || (self.args.optimal@.len()
                    > 0 && self.max_instructions + 1 == self.args.optimal@.len()) || (
                self.max_instructions == 0 && self.args.optimal@.len() == 0),
            decreases u64::MAX - fuel,
        {
            if self.should_stop() {
                return ;
            }
            let program = self.generate_program();
            let replaced = self.args.try_replace_if_shorter(program);
            if replaced {
                // Look only for programs even shorter than the one just
                // found.
                let new_len = self.args.current_optimal_length();
                if new_len > 0 {
                    self.max_instructions = new_len - 1;
                } else {
                    self.max_instructions = 0;
                }
            }
            self.args.note_candidate();
            fuel = fuel + 1;
        }
    }
}

} // verus!
