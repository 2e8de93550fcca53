//! Genetic search: a fixed population of candidate programs, single-point
//! crossover and per-instruction mutation.

use vstd::prelude::*;

use crate::instruction::Instruction;
use crate::optimizers::OptimizerArgs;
use crate::program::Program;
use crate::rng::{rand_u8_inclusive, rand_usize_inclusive};

verus! {

/// The mutation vocabulary: `Load` with an immediate up to `max_num`, or
/// `Swap`, `XOR`, `Inc` over the configured memory — the subset the
/// genetic search mutates within.
pub open spec fn mutation_vocab(i: Instruction, mem_size: nat, max_num: nat) -> bool {
    match i {
        Instruction::Load(v) => v <= max_num,
        Instruction::Swap(a, b) => a < mem_size && b < mem_size,
        Instruction::XOR(a, b) => a < mem_size && b < mem_size,
        Instruction::Inc(a) => a < mem_size,
        _ => false,
    }
}

/// Size of the population every run starts from.
pub const POPULATION_SIZE: usize = 100;

/// The genetic strategy.  The population is seeded with copies of the input
/// program and is drawn from read-only by every worker; only the shared
/// best program evolves.
pub struct GeneticOptimizer<'a> {
    pub args: OptimizerArgs<'a>,
    pub population: Vec<Program>,
}

impl<'a> GeneticOptimizer<'a> {
    /// Every member of the population fits the machine configuration.
    pub open spec fn pop_wf(self) -> bool {
        &&& self.population@.len() > 0
        &&& forall|i: int|
            0 <= i < self.population@.len() ==> (#[trigger] self.population@[i]).wf(
                self.args.mem_size as nat,
            )
    }

    /// Creates the strategy, seeding the population with copies of the
    /// best-known (that is, the input) program.
    pub fn new(args: OptimizerArgs<'a>) -> (r: Self)
        requires
            args.wf(),
        ensures
            r.args == args,
            r.args.wf(),
            r.pop_wf(),
    {
        let mut population: Vec<Program> = Vec::new();
        let mut k: usize = 0;
        while k < POPULATION_SIZE
            invariant
                k <= POPULATION_SIZE,
                population@.len() == k,
                forall|i: int|
                    0 <= i < k ==> (#[trigger] population@[i]).wf(args.mem_size as nat),
                args.wf(),
            decreases POPULATION_SIZE - k,
        {
            population.push(args.optimal.duplicate());
            k = k + 1;
        }
        GeneticOptimizer { args, population }
    }

    /// Length of the best-known program.
    pub fn current_optimal_length(&self) -> (r: usize)
        ensures
            r == self.args.optimal@.len(),
    {
        self.args.current_optimal_length()
    }

    /// Polls the cancellation flag.
    pub fn should_stop(&self) -> bool {
        self.args.should_stop()
    }

    /// Single-point crossover: the head of one parent up to a random index,
    /// spliced with the tail of the other from that index on.  The child is
    /// exactly such a splice, so it has the second parent's length.
    #[verifier::loop_isolation(false)]
    pub fn crossover(&self, parent1: &Program, parent2: &Program) -> (r: Program)
        requires
            self.args.mem_size >= 1,
            parent1.wf(self.args.mem_size as nat),
            parent2.wf(self.args.mem_size as nat),
        ensures
            r.wf(self.args.mem_size as nat),
            r@.len() == parent2@.len(),
            exists|k: int|
                0 <= k <= parent1@.len() && k <= parent2@.len() && r@ == parent1@.take(k)
                    + parent2@.skip(k),
    {
        let mut child = Program::new();
        let l1 = parent1.len();
        let l2 = parent2.len();
        let shorter = if l1 < l2 {
            l1
        } else {
            l2
        };
        let point = if shorter == 0 {
            0
        } else {
            rand_usize_inclusive(0, shorter - 1)
        };
        let mut i: usize = 0;
        while i < point
            invariant
                i <= point <= l1,
                point <= l2,
                child@ == parent1@.subrange(0, i as int),
            decreases point - i,
        {
            child.instructions.push(parent1.instructions[i]);
            proof {
                assert(parent1@.subrange(0, i as int).push(parent1@[i as int])
                    =~= parent1@.subrange(0, i + 1));
            }
            i = i + 1;
        }
        let mut j: usize = point;
        while j < l2
            invariant
                point <= j <= l2,
                child@ == parent1@.subrange(0, point as int) + parent2@.subrange(
                    point as int,
                    j as int,
                ),
            decreases l2 - j,
        {
            child.instructions.push(parent2.instructions[j]);
            proof {
                assert((parent1@.subrange(0, point as int) + parent2@.subrange(
                    point as int,
                    j as int,
                )).push(parent2@[j as int]) =~= parent1@.subrange(0, point as int)
                    + parent2@.subrange(point as int, j + 1));
            }
            j = j + 1;
        }
        proof {
            assert(child@ =~= parent1@.take(point as int) + parent2@.skip(point as int));
            assert forall|x: int|
                0 <= x < child@.len() implies (#[trigger] child@[x]).wf(
                self.args.mem_size as nat,
            ) by {
                if x < point {
                    assert(child@[x] == parent1@[x]);
                } else {
                    assert(child@[x] == parent2@[x]);
                }
            }
        }
        child
    }

    /// Mutation: with probability one in ten, a position is overwritten by
    /// a fresh instruction from the mutation vocabulary; every other
    /// position is left exactly as it was, and nothing is inserted or
    /// removed.
    #[verifier::loop_isolation(false)]
    pub fn mutate(&self, program: &mut Program)
        requires
            self.args.mem_size >= 1,
            old(program).wf(self.args.mem_size as nat),
        ensures
            final(program).wf(self.args.mem_size as nat),
            final(program)@.len() == old(program)@.len(),
            forall|i: int|
                0 <= i < old(program)@.len() ==> #[trigger] final(program)@[i] == old(
                    program,
                )@[i] || mutation_vocab(
                    final(program)@[i],
                    self.args.mem_size as nat,
                    self.args.max_num as nat,
                ),
    {
        let n = program.instructions.len();
        let mut i: usize = 0;
        while i < n
            invariant
                i <= n == program@.len(),
                program.wf(self.args.mem_size as nat),
                forall|x: int|
                    0 <= x < n ==> #[trigger] program@[x] == old(program)@[x] || mutation_vocab(
                        program@[x],
                        self.args.mem_size as nat,
                        self.args.max_num as nat,
                    ),
            decreases n - i,
        {
            if rand_usize_inclusive(0, 9) == 0 {
                let fresh = self.random_instruction();
                let ghost before = program@;
                program.instructions[i] = fresh;
                proof {
                    assert forall|x: int|
                        0 <= x < program@.len() implies (#[trigger] program@[x]).wf(
                        self.args.mem_size as nat,
                    ) by {
                        if x != i {
                            assert(program@[x] == before[x]);
                        }
                    }
                    assert forall|x: int|
                        0 <= x < n implies #[trigger] program@[x] == old(program)@[x]
                        || mutation_vocab(
                        program@[x],
                        self.args.mem_size as nat,
                        self.args.max_num as nat,
                    ) by {
                        if x != i {
                            assert(program@[x] == before[x]);
                        }
                    }
                }
            }
            i = i + 1;
        }
    }

    /// Draws one instruction from the mutation vocabulary.
    fn random_instruction(&self) -> (r: Instruction)
        requires
            self.args.mem_size >= 1,
        ensures
            r.wf(self.args.mem_size as nat),
            mutation_vocab(r, self.args.mem_size as nat, self.args.max_num as nat),
    {
        let reg1 = rand_usize_inclusive(0, self.args.mem_size - 1);
        let reg2 = rand_usize_inclusive(0, self.args.mem_size - 1);
        let val = rand_u8_inclusive(0, self.args.max_num);
        let kind = rand_usize_inclusive(0, 3);
        if kind == 0 {
            Instruction::Load(val)
        } else if kind == 1 {
            Instruction::Swap(reg1, reg2)
        } else if kind == 2 {
            Instruction::XOR(reg1, reg2)
        } else {
            Instruction::Inc(reg1)
        }
    }

    /// Select two parents at random, cross them over and mutate the child.
    /// The child always has the length of the second parent, a member of
    /// the population.
    pub fn evolve_program(&self) -> (r: Program)
        requires
            self.args.mem_size >= 1,
            self.pop_wf(),
        ensures
            r.wf(self.args.mem_size as nat),
            exists|i: int|
                0 <= i < self.population@.len() && r@.len() == (
                #[trigger] self.population@[i])@.len(),
    {
        let n = self.population.len();
        let p1 = rand_usize_inclusive(0, n - 1);
        let p2 = rand_usize_inclusive(0, n - 1);
        let parent1 = &self.population[p1];
        let parent2 = &self.population[p2];
        let mut child = self.crossover(parent1, parent2);
        self.mutate(&mut child);
        proof {
            assert(child@.len() == self.population@[p2 as int]@.len());
        }
        child
    }

    /// The worker loop: evolve a child, evaluate it, replace the shared
    /// best on improvement, poll cancellation; repeat.  The best-known
    /// program is left untouched unless a strictly shorter equivalent
    /// child replaced it.
    #[verifier::loop_isolation(false)]
    pub fn worker_loop(&mut self)
        requires
            old(self).args.wf(),
            old(self).pop_wf(),
        ensures
            final(self).args.wf(),
            final(self).args.same_config(old(self).args),
            final(self).args.optimal@.len() <= old(self).args.optimal@.len(),
            final(self).args.optimal == old(self).args.optimal || final(self).args.optimal@.len()
                < old(self).args.optimal@.len(),
    {
        let mut fuel: u64 = 0;
        while fuel < u64::MAX
            invariant
                self.args.wf(),
                self.args.same_config(old(self).args),
                self.args.optimal@.len() <= old(self).args.optimal@.len(),
                self.args.optimal == old(self).args.optimal || self.args.optimal@.len() < old(
                    self,
                ).args.optimal@.len(),
                self.pop_wf(),
                self.population == old(self).population,
            decreases u64::MAX - fuel,
        {
            if self.should_stop() {
                return ;
            }
            let child = self.evolve_program();
            self.args.try_replace_if_shorter(child);
            self.args.note_candidate();
            fuel = fuel + 1;
        }
    }
}

} // verus!
