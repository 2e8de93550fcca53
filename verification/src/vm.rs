//! The virtual machine: the single source of truth for program equivalence.

use vstd::prelude::*;

use crate::error::SuperrError;
use crate::instruction::{Instruction, MemValue};
use crate::program::Program;

verus! {

/// Number of memory cells of the default machine configuration.
pub const MEM_SIZE: usize = 12;

/// Default cap on instruction steps per execution.  Automatically generated
/// candidate programs may contain `Jmp` cycles, so every execution is cut off
/// once it has run this many steps.
pub const DEFAULT_STEP_BUDGET: u64 = 4096;

/// The machine's memory: `mem_size` 8-bit cells.
pub type State = Vec<MemValue>;

/// The all-zero memory every execution starts from.
pub open spec fn zero_state(mem_size: nat) -> Seq<u8> {
    Seq::new(mem_size, |i: int| 0u8)
}

/// Addition of two cells, wrapping modulo 256.
pub open spec fn wrap_add(x: u8, y: u8) -> u8 {
    if x + y > 255 {
        (x + y - 256) as u8
    } else {
        (x + y) as u8
    }
}

/// Subtraction of two cells, wrapping modulo 256.
pub open spec fn wrap_sub(x: u8, y: u8) -> u8 {
    if x - y < 0 {
        (x - y + 256) as u8
    } else {
        (x - y) as u8
    }
}

/// The effect of one instruction on the memory, the program counter and the
/// output emitted so far.  Every instruction but `Jmp` advances the counter
/// by one; `Jmp` sets it to its target.
pub open spec fn spec_step(st: Seq<u8>, pc: nat, out: Seq<u8>, i: Instruction) -> (Seq<
    u8,
>, nat, Seq<u8>) {
    match i {
        Instruction::Load(v) => (st.update(0, v), (pc + 1) as nat, out),
        Instruction::Swap(a, b) => (
            st.update(a as int, st[b as int]).update(b as int, st[a as int]),
            (pc + 1) as nat,
            out,
        ),
        Instruction::XOR(a, b) => (
            st.update(a as int, st[a as int] ^ st[b as int]),
            (pc + 1) as nat,
            out,
        ),
        Instruction::Inc(a) => (st.update(a as int, wrap_add(st[a as int], 1)), (pc + 1) as nat, out),
        Instruction::Decr(a) => (
            st.update(a as int, wrap_sub(st[a as int], 1)),
            (pc + 1) as nat,
            out,
        ),
        Instruction::Add(a, b) => (
            st.update(a as int, wrap_add(st[a as int], st[b as int])),
            (pc + 1) as nat,
            out,
        ),
        Instruction::Sub(a, b) => (
            st.update(a as int, wrap_sub(st[a as int], st[b as int])),
            (pc + 1) as nat,
            out,
        ),
        Instruction::Put(a) => (st, (pc + 1) as nat, out.push(st[a as int])),
        Instruction::Jmp(t) => (st, t as nat, out),
    }
}

/// Runs `prog` from memory `st`, counter `pc` and output `out` for at most
/// `fuel` further steps.  `Some((memory, output))` is the halting result;
/// `None` means the step budget ran out first.
pub open spec fn spec_run(
    prog: Seq<Instruction>,
    st: Seq<u8>,
    pc: nat,
    out: Seq<u8>,
    fuel: nat,
) -> Option<(Seq<u8>, Seq<u8>)>
    decreases fuel,
{
    if pc >= prog.len() {
        Some((st, out))
    } else if fuel == 0 {
        None
    } else {
        let (st2, pc2, out2) = spec_step(st, pc, out, prog[pc as int]);
        spec_run(prog, st2, pc2, out2, (fuel - 1) as nat)
    }
}

/// A full execution: from the all-zero memory under the given step budget.
pub open spec fn spec_exec(prog: Seq<Instruction>, mem_size: nat, fuel: nat) -> Option<(Seq<
    u8,
>, Seq<u8>)> {
    spec_run(prog, zero_state(mem_size), 0, Seq::empty(), fuel)
}

/// The final memory of a full execution, discarding the output.
pub open spec fn spec_compute(prog: Seq<Instruction>, mem_size: nat, fuel: nat) -> Option<
    Seq<u8>,
> {
    match spec_exec(prog, mem_size, fuel) {
        Some((st, out)) => Some(st),
        None => None,
    }
}

/// Execution is deterministic: the final memory and the `Put` output of a
/// run are a function of the program, the starting configuration and the
/// budget alone, so two runs of the same program always agree.
pub proof fn lemma_execution_deterministic(
    prog: Seq<Instruction>,
    mem_size: nat,
    fuel: nat,
    r1: Option<(Seq<u8>, Seq<u8>)>,
    r2: Option<(Seq<u8>, Seq<u8>)>,
)
    requires
        r1 == spec_exec(prog, mem_size, fuel),
        r2 == spec_exec(prog, mem_size, fuel),
    ensures
        r1 == r2,
{
}

/// The number of `Inc` steps a memory cell needs to come back to its
/// starting value: applying `Inc` to one cell this many times is the
/// identity, because cell arithmetic wraps modulo 256.
pub open spec fn inc_period() -> nat {
    256
}

/// The memory after `n` single-cell `Inc` steps.
pub open spec fn iter_inc(st: Seq<u8>, a: usize, n: nat) -> Seq<u8>
    decreases n,
{
    if n == 0 {
        st
    } else {
        let prev = iter_inc(st, a, (n - 1) as nat);
        spec_step(prev, 0, Seq::empty(), Instruction::Inc(a)).0
    }
}

/// After `n` `Inc` steps the cell holds its old value plus `n`, modulo 256,
/// and every other cell is untouched.
proof fn lemma_iter_inc_value(st: Seq<u8>, a: usize, n: nat)
    requires
        a < st.len(),
    ensures
        iter_inc(st, a, n) =~= st.update(a as int, ((st[a as int] + n) % 256) as u8),
    decreases n,
{
    vstd::arithmetic::div_mod::lemma_small_mod(st[a as int] as nat, 256);
    if n == 0 {
        assert(iter_inc(st, a, 0) =~= st.update(a as int, ((st[a as int] + 0) % 256) as u8));
    } else {
        lemma_iter_inc_value(st, a, (n - 1) as nat);
        let prev = iter_inc(st, a, (n - 1) as nat);
        let x = st[a as int] as int;
        assert(prev[a as int] == ((x + n - 1) % 256) as u8);
        vstd::arithmetic::div_mod::lemma_add_mod_noop(x + n - 1, 1, 256);
        vstd::arithmetic::div_mod::lemma_small_mod(1nat, 256);
        assert(((x + n - 1) % 256 + 1) % 256 == (x + n) % 256);
    }
}

/// Wrap-around arithmetic: 256 `Inc` steps on any cell return the whole
/// memory to exactly its starting value.
pub proof fn lemma_inc_wraps_around(st: Seq<u8>, a: usize)
    requires
        a < st.len(),
    ensures
        iter_inc(st, a, inc_period()) == st,
{
    lemma_iter_inc_value(st, a, 256);
    vstd::arithmetic::div_mod::lemma_mod_self_0(256);
    vstd::arithmetic::div_mod::lemma_add_mod_noop(st[a as int] as int, 256, 256);
    vstd::arithmetic::div_mod::lemma_small_mod(st[a as int] as nat, 256);
    assert((st[a as int] + 256) % 256 == st[a as int]);
    assert(st.update(a as int, st[a as int]) =~= st);
}

/// `Sub` never fails, whatever the two cells hold: a subtraction step
/// always wraps and the run always halts normally within one step.
pub proof fn lemma_sub_never_fails(st: Seq<u8>, a: usize, b: usize, fuel: nat)
    requires
        a < st.len(),
        b < st.len(),
        fuel >= 1,
    ensures
        spec_run(seq![Instruction::Sub(a, b)], st, 0, Seq::empty(), fuel) matches Some(r)
            && r.0 == st.update(a as int, wrap_sub(st[a as int], st[b as int])),
{
    let prog = seq![Instruction::Sub(a, b)];
    assert(prog[0] == Instruction::Sub(a, b));
    let (st2, pc2, out2) = spec_step(st, 0, Seq::empty(), prog[0]);
    assert(pc2 == 1 && pc2 >= prog.len());
    assert(spec_run(prog, st2, pc2, out2, (fuel - 1) as nat) == Some((st2, out2)));
}

/// Builds the all-zero memory.
pub fn zero_vec(n: usize) -> (r: Vec<u8>)
    ensures
        r@ == zero_state(n as nat),
{
    let mut v: Vec<u8> = Vec::new();
    let mut i: usize = 0;
    while i < n
        invariant
            i <= n,
            v@.len() == i,
            forall|j: int| 0 <= j < i ==> v@[j] == 0u8,
        decreases n - i,
    {
        v.push(0u8);
        i = i + 1;
    }
    proof {
        assert(v@ =~= zero_state(n as nat));
    }
    v
}

/// A transient execution context: a memory, a program counter and the program
/// currently running.  Each search worker owns its own machine; a machine is
/// reset before every execution and never shared.
#[derive(Debug)]
pub struct VM {
    pub state: State,
    pub pc: usize,
    pub program: Program,
    pub mem_size: usize,
    pub step_budget: u64,
}

impl VM {
    /// The memory always has exactly `mem_size` cells, and there is at least
    /// one cell (`Load` always writes cell 0).
    pub open spec fn wf(self) -> bool {
        self.state@.len() == self.mem_size && self.mem_size >= 1
    }

    /// Creates a machine with the given memory size and step budget.
    pub fn new(mem_size: usize, step_budget: u64) -> (r: Self)
        requires
            mem_size >= 1,
        ensures
            r.wf(),
            r.mem_size == mem_size,
            r.step_budget == step_budget,
            r.state@ == zero_state(mem_size as nat),
            r.pc == 0,
            r.program@ == Seq::<Instruction>::empty(),
    {
        VM {
            state: zero_vec(mem_size),
            pc: 0,
            program: Program::new(),
            mem_size,
            step_budget,
        }
    }

    /// Clears the memory, the counter and the program.
    pub fn reset(&mut self)
        requires
            old(self).wf(),
        ensures
            final(self).wf(),
            final(self).mem_size == old(self).mem_size,
            final(self).step_budget == old(self).step_budget,
            final(self).state@ == zero_state(final(self).mem_size as nat),
            final(self).pc == 0,
            final(self).program@ == Seq::<Instruction>::empty(),
    {
        self.state = zero_vec(self.mem_size);
        self.pc = 0;
        self.program = Program::new();
    }

    /// Resets the machine, then executes `program` under the step budget.
    ///
    /// On normal halting the final memory stays in `self.state` and the
    /// sequence of values emitted by `Put` is returned.  If the budget runs
    /// out the machine is cleared and `StepBudgetExceeded` is returned.
    /// The result is exactly `spec_exec` of the program: execution is total
    /// and deterministic.
    #[verifier::loop_isolation(false)]
    pub fn execute_program(&mut self, program: Program) -> (r: Result<Vec<u8>, SuperrError>)
        requires
            old(self).wf(),
            program.wf(old(self).mem_size as nat),
        ensures
            final(self).wf(),
            final(self).mem_size == old(self).mem_size,
            final(self).step_budget == old(self).step_budget,
            final(self).pc == 0,
            final(self).program@ == Seq::<Instruction>::empty(),
            match spec_exec(program@, old(self).mem_size as nat, old(self).step_budget as nat) {
                Some((st, out)) => r matches Ok(o) && o@ == out && final(self).state@ == st,
                None => (r matches Err(e) && e is StepBudgetExceeded) && final(self).state@
                    == zero_state(old(self).mem_size as nat),
            },
    {
        let ghost prog = program@;
        self.state = zero_vec(self.mem_size);
        self.pc = 0;
        self.program = program;
        let n = self.program.instructions.len();
        let budget = self.step_budget;
        let mut out: Vec<u8> = Vec::new();
        let mut steps: u64 = 0;
        while self.pc < n
            invariant
                self.wf(),
                self.mem_size == old(self).mem_size,
                self.step_budget == old(self).step_budget,
                self.program@ == prog,
                prog.len() == n,
                forall|i: int| 0 <= i < prog.len() ==> #[trigger] prog[i].wf(
                    self.mem_size as nat,
                ),
                steps <= budget,
                budget == self.step_budget,
                spec_run(prog, zero_state(self.mem_size as nat), 0, Seq::empty(), budget as nat)
                    == spec_run(
                    prog,
                    self.state@,
                    self.pc as nat,
                    out@,
                    (budget - steps) as nat,
                ),
            decreases budget - steps,
        {
            if steps == budget {
                // The remaining fuel is zero while the counter is still
                // inside the program, so the whole run exceeds the budget.
                assert(spec_run(prog, self.state@, self.pc as nat, out@, 0nat) is None);
                self.state = zero_vec(self.mem_size);
                self.pc = 0;
                self.program = Program::new();
                return Err(SuperrError::StepBudgetExceeded);
            }
            let ghost pre_state = self.state@;
            let ghost pre_pc = self.pc as nat;
            let ghost pre_out = out@;
            let instr = self.program.instructions[self.pc];
            assert(instr.wf(self.mem_size as nat));
            match instr {
                Instruction::Load(v) => {
                    self.state[0] = v;
                    self.pc = self.pc + 1;
                },
                Instruction::Swap(a, b) => {
                    let va = self.state[a];
                    let vb = self.state[b];
                    self.state[a] = vb;
                    self.state[b] = va;
                    self.pc = self.pc + 1;
                },
                Instruction::XOR(a, b) => {
                    let v = self.state[a] ^ self.state[b];
                    self.state[a] = v;
                    self.pc = self.pc + 1;
                },
                Instruction::Inc(a) => {
                    let v = self.state[a].wrapping_add(1);
                    self.state[a] = v;
                    self.pc = self.pc + 1;
                },
                Instruction::Decr(a) => {
                    let v = self.state[a].wrapping_sub(1);
                    self.state[a] = v;
                    self.pc = self.pc + 1;
                },
                Instruction::Add(a, b) => {
                    let v = self.state[a].wrapping_add(self.state[b]);
                    self.state[a] = v;
                    self.pc = self.pc + 1;
                },
                Instruction::Sub(a, b) => {
                    let v = self.state[a].wrapping_sub(self.state[b]);
                    self.state[a] = v;
                    self.pc = self.pc + 1;
                },
                Instruction::Put(a) => {
                    out.push(self.state[a]);
                    self.pc = self.pc + 1;
                },
                Instruction::Jmp(t) => {
                    self.pc = t;
                },
            }
            proof {
                assert((self.state@, self.pc as nat, out@) == spec_step(
                    pre_state,
                    pre_pc,
                    pre_out,
                    prog[pre_pc as int],
                ));
            }
            steps = steps + 1;
        }
        // The counter left the program: the current configuration is final.
        assert(spec_run(prog, self.state@, self.pc as nat, out@, (budget - steps) as nat)
            == Some((self.state@, out@)));
        self.pc = 0;
        self.program = Program::new();
        Ok(out)
    }

    /// Runs a fresh machine on `program` and returns only the final memory;
    /// output from `Put` is discarded and a budget overrun yields `None`.
    pub fn compute_state(program: &Program, mem_size: usize, step_budget: u64) -> (r: Option<
        State,
    >)
        requires
            mem_size >= 1,
            program.wf(mem_size as nat),
        ensures
            match r {
                Some(st) => spec_compute(program@, mem_size as nat, step_budget as nat) == Some(
                    st@,
                ) && st@.len() == mem_size,
                None => spec_compute(program@, mem_size as nat, step_budget as nat) is None,
            },
    {
        let mut vm = VM::new(mem_size, step_budget);
        match vm.execute_program(program.duplicate()) {
            Ok(_) => Some(vm.state),
            Err(_) => None,
        }
    }
}

} // verus!
