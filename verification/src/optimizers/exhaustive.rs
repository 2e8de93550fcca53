//! Exhaustive enumeration: every candidate program over the search
//! vocabulary, in increasing length, ranked so that each length is covered
//! completely.  A completed run is proved to end with a shortest equivalent
//! program within the searched bounds.

use vstd::prelude::*;

use vstd::arithmetic::div_mod::lemma_div_denominator;

use crate::instruction::Instruction;
use crate::optimizers::{wf_search, wf_search_seq, OptimizerArgs};
use crate::program::Program;
use crate::vm::spec_compute;

verus! {

/// How many distinct instructions the vocabulary holds.
pub open spec fn instr_count(mem_size: nat, max_num: nat) -> nat {
    (max_num + 1) + 4 * (mem_size * mem_size) + 2 * mem_size
}

/// The instruction at position `k` of the enumeration: first the `Load`s,
/// then `Swap`, `XOR`, `Inc`, `Decr`, `Add` and `Sub` blocks.
pub open spec fn nth_instr(k: nat, mem_size: nat, max_num: nat) -> Instruction {
    let l = max_num + 1;
    let mm = mem_size * mem_size;
    if k < l {
        Instruction::Load(k as u8)
    } else if k < l + mm {
        let k2 = (k - l) as nat;
        Instruction::Swap((k2 / mem_size) as usize, (k2 % mem_size) as usize)
    } else if k < l + 2 * mm {
        let k2 = (k - l - mm) as nat;
        Instruction::XOR((k2 / mem_size) as usize, (k2 % mem_size) as usize)
    } else if k < l + 2 * mm + mem_size {
        Instruction::Inc((k - l - 2 * mm) as usize)
    } else if k < l + 2 * mm + 2 * mem_size {
        Instruction::Decr((k - l - 2 * mm - mem_size) as usize)
    } else if k < l + 3 * mm + 2 * mem_size {
        let k2 = (k - l - 2 * mm - 2 * mem_size) as nat;
        Instruction::Add((k2 / mem_size) as usize, (k2 % mem_size) as usize)
    } else {
        let k2 = (k - l - 3 * mm - 2 * mem_size) as nat;
        Instruction::Sub((k2 / mem_size) as usize, (k2 % mem_size) as usize)
    }
}

/// The position of a vocabulary instruction in the enumeration.
pub open spec fn instr_index(i: Instruction, mem_size: nat, max_num: nat) -> nat {
    let l = max_num + 1;
    let mm = mem_size * mem_size;
    match i {
        Instruction::Load(v) => v as nat,
        Instruction::Swap(a, b) => l + a as nat * mem_size + b as nat,
        Instruction::XOR(a, b) => l + mm + a as nat * mem_size + b as nat,
        Instruction::Inc(a) => l + 2 * mm + a as nat,
        Instruction::Decr(a) => l + 2 * mm + mem_size + a as nat,
        Instruction::Add(a, b) => l + 2 * mm + 2 * mem_size + a as nat * mem_size + b as nat,
        Instruction::Sub(a, b) => l + 3 * mm + 2 * mem_size + a as nat * mem_size + b as nat,
        Instruction::Put(_) => 0,
        Instruction::Jmp(_) => 0,
    }
}

/// Packing two addresses into one block offset and unpacking them again.
proof fn lemma_addr_pair(a: nat, b: nat, mem_size: nat)
    requires
        a < mem_size,
        b < mem_size,
    ensures
        a * mem_size + b < mem_size * mem_size,
        (a * mem_size + b) / mem_size == a,
        (a * mem_size + b) % mem_size == b,
{
    assert(a * mem_size + b < mem_size * mem_size) by (nonlinear_arith)
        requires
            a < mem_size,
            b < mem_size,
    ;
    assert((a * mem_size + b) / mem_size == a && (a * mem_size + b) % mem_size == b)
        by (nonlinear_arith)
        requires
            a < mem_size,
            b < mem_size,
    ;
}

/// Every vocabulary instruction sits at its index: the enumeration reaches
/// the whole vocabulary.
pub proof fn lemma_instr_index(i: Instruction, mem_size: nat, max_num: nat)
    requires
        mem_size >= 1,
        wf_search(i, mem_size, max_num),
    ensures
        instr_index(i, mem_size, max_num) < instr_count(mem_size, max_num),
        nth_instr(instr_index(i, mem_size, max_num), mem_size, max_num) == i,
{
    match i {
        Instruction::Load(v) => {},
        Instruction::Swap(a, b) => {
            lemma_addr_pair(a as nat, b as nat, mem_size);
        },
        Instruction::XOR(a, b) => {
            lemma_addr_pair(a as nat, b as nat, mem_size);
        },
        Instruction::Inc(a) => {},
        Instruction::Decr(a) => {},
        Instruction::Add(a, b) => {
            lemma_addr_pair(a as nat, b as nat, mem_size);
        },
        Instruction::Sub(a, b) => {
            lemma_addr_pair(a as nat, b as nat, mem_size);
        },
        Instruction::Put(_) => {},
        Instruction::Jmp(_) => {},
    }
}

/// `base` to the power `exp`.
pub open spec fn pow_nat(base: nat, exp: nat) -> nat
    decreases exp,
{
    if exp == 0 {
        1
    } else {
        base * pow_nat(base, (exp - 1) as nat)
    }
}

/// Powers of a positive base only grow.
pub proof fn lemma_pow_mono(base: nat, e1: nat, e2: nat)
    requires
        base >= 1,
        e1 <= e2,
    ensures
        pow_nat(base, e1) <= pow_nat(base, e2),
        pow_nat(base, e1) >= 1,
    decreases e2,
{
    if e2 == 0 {
    } else if e1 == 0 {
        lemma_pow_mono(base, 0, (e2 - 1) as nat);
        assert(pow_nat(base, e2) == base * pow_nat(base, (e2 - 1) as nat));
        assert(base * pow_nat(base, (e2 - 1) as nat) >= 1 * pow_nat(base, (e2 - 1) as nat))
            by (nonlinear_arith)
            requires
                base >= 1,
                pow_nat(base, (e2 - 1) as nat) >= 0,
        ;
    } else {
        lemma_pow_mono(base, (e1 - 1) as nat, (e2 - 1) as nat);
        assert(base * pow_nat(base, (e1 - 1) as nat) <= base * pow_nat(base, (e2 - 1) as nat))
            by (nonlinear_arith)
            requires
                pow_nat(base, (e1 - 1) as nat) <= pow_nat(base, (e2 - 1) as nat),
                base >= 0,
        ;
        assert(base * pow_nat(base, (e1 - 1) as nat) >= 1) by (nonlinear_arith)
            requires
                base >= 1,
                pow_nat(base, (e1 - 1) as nat) >= 1,
        ;
    }
}

/// Digit `j` of `r` in base `c`.
pub open spec fn rank_digit(r: nat, j: nat, c: nat) -> nat {
    (r / pow_nat(c, j)) % c
}

/// The candidate of rank `r` and length `len`: its first instruction is the
/// most significant digit.
pub open spec fn rank_seq(r: nat, len: nat, mem_size: nat, max_num: nat) -> Seq<Instruction> {
    Seq::new(
        len,
        |j: int|
            nth_instr(
                rank_digit(r, (len - 1 - j) as nat, instr_count(mem_size, max_num)),
                mem_size,
                max_num,
            ),
    )
}

/// The rank of a candidate: digits are its instruction indices, first
/// instruction most significant.
pub open spec fn rank_of(s: Seq<Instruction>, mem_size: nat, max_num: nat) -> nat
    decreases s.len(),
{
    if s.len() == 0 {
        0
    } else {
        rank_of(s.drop_last(), mem_size, max_num) * instr_count(mem_size, max_num) + instr_index(
            s.last(),
            mem_size,
            max_num,
        )
    }
}

/// Splitting a rank into its last digit and the rest.
proof fn lemma_rank_split(rp: nat, i0: nat, c: nat)
    requires
        i0 < c,
    ensures
        (rp * c + i0) % c == i0,
        (rp * c + i0) / c == rp,
{
    assert((rp * c + i0) % c == i0 && (rp * c + i0) / c == rp) by (nonlinear_arith)
        requires
            i0 < c,
            rp >= 0,
    ;
}

/// Every vocabulary candidate of length `len` has a rank below
/// `instr_count ^ len`, and its rank reproduces it: the enumeration of one
/// length covers every candidate of that length.
pub proof fn lemma_rank_round(s: Seq<Instruction>, mem_size: nat, max_num: nat)
    requires
        mem_size >= 1,
        wf_search_seq(s, mem_size, max_num),
    ensures
        rank_of(s, mem_size, max_num) < pow_nat(instr_count(mem_size, max_num), s.len()),
        rank_seq(rank_of(s, mem_size, max_num), s.len(), mem_size, max_num) == s,
    decreases s.len(),
{
    let c = instr_count(mem_size, max_num);
    if s.len() == 0 {
        assert(rank_seq(0, 0, mem_size, max_num) =~= s);
    } else {
        let head = s.drop_last();
        let rp = rank_of(head, mem_size, max_num);
        let i0 = instr_index(s.last(), mem_size, max_num);
        assert(wf_search_seq(head, mem_size, max_num)) by {
            assert(forall|i: int| 0 <= i < head.len() ==> head[i] == s[i]);
        }
        lemma_instr_index(s.last(), mem_size, max_num);
        lemma_rank_round(head, mem_size, max_num);
        let r = rank_of(s, mem_size, max_num);
        assert(r == rp * c + i0);
        // The rank stays below c ^ len.
        assert(rp * c + i0 < pow_nat(c, (s.len() - 1) as nat) * c) by (nonlinear_arith)
            requires
                rp < pow_nat(c, (s.len() - 1) as nat),
                i0 < c,
        ;
        assert(pow_nat(c, (s.len() - 1) as nat) * c == pow_nat(c, s.len())) by {
            lemma_pow_commute(c, (s.len() - 1) as nat);
        }
        // The digits reproduce the instructions.
        lemma_rank_split(rp, i0, c);
        assert forall|j: int| 0 <= j < s.len() implies rank_seq(r, s.len(), mem_size, max_num)[j]
            == s[j] by {
            let d = (s.len() - 1 - j) as nat;
            if d == 0 {
                assert(pow_nat(c, 0) == 1);
                assert(rank_digit(r, 0, c) == r % c);
                assert(r % c == i0);
                lemma_instr_index(s.last(), mem_size, max_num);
                assert(j == s.len() - 1);
            } else {
                // Dividing out one digit steps to the shorter candidate.
                assert(pow_nat(c, d) == c * pow_nat(c, (d - 1) as nat));
                lemma_pow_mono(c, 0, (d - 1) as nat);
                lemma_div_denominator(r as int, c as int, pow_nat(c, (d - 1) as nat) as int);
                assert(r / pow_nat(c, d) == (r / c) / pow_nat(c, (d - 1) as nat));
                assert(r / c == rp);
                assert(rank_digit(r, d, c) == rank_digit(rp, (d - 1) as nat, c));
                assert(rank_seq(rp, head.len(), mem_size, max_num)[j] == head[j]);
                assert(head[j] == s[j]);
            }
        }
        assert(rank_seq(r, s.len(), mem_size, max_num) =~= s);
    }
}

/// `c ^ (e + 1)` factors on either side.
proof fn lemma_pow_commute(c: nat, e: nat)
    ensures
        pow_nat(c, e) * c == pow_nat(c, (e + 1) as nat),
{
    let e1 = (e + 1) as nat;
    assert(e1 != 0);
    assert(pow_nat(c, e1) == c * pow_nat(c, (e1 - 1) as nat));
    assert((e1 - 1) as nat == e);
    assert(pow_nat(c, e) * c == c * pow_nat(c, e)) by (nonlinear_arith);
}

/// Computes `base ^ exp`, or reports that it exceeds the 64-bit range.
fn checked_pow_u64(base: u64, exp: usize) -> (r: Option<u64>)
    requires
        base >= 1,
    ensures
        match r {
            Some(t) => t == pow_nat(base as nat, exp as nat),
            None => pow_nat(base as nat, exp as nat) > u64::MAX,
        },
{
    let mut t: u64 = 1;
    let mut e: usize = 0;
    while e < exp
        invariant
            e <= exp,
            base >= 1,
            t == pow_nat(base as nat, e as nat),
        decreases exp - e,
    {
        match t.checked_mul(base) {
            Some(t2) => {
                proof {
                    lemma_pow_commute(base as nat, e as nat);
                }
                t = t2;
                e = e + 1;
            },
            None => {
                proof {
                    lemma_pow_commute(base as nat, e as nat);
                    lemma_pow_mono(base as nat, (e + 1) as nat, exp as nat);
                    assert(t * base == pow_nat(base as nat, (e + 1) as nat));
                }
                return None;
            },
        }
    }
    Some(t)
}

/// The complete, deterministic strategy.
pub struct ExhaustiveOptimizer<'a> {
    pub args: OptimizerArgs<'a>,
}

impl<'a> ExhaustiveOptimizer<'a> {
    /// Creates the strategy over a search context.
    pub fn new(args: OptimizerArgs<'a>) -> (r: Self)
        requires
            args.wf(),
        ensures
            r.args == args,
            r.args.wf(),
    {
        ExhaustiveOptimizer { args }
    }

    /// Length of the best-known program.
    pub fn current_optimal_length(&self) -> (r: usize)
        ensures
            r == self.args.optimal@.len(),
    {
        self.args.current_optimal_length()
    }

    /// Polls the cancellation flag.
    pub fn should_stop(&self) -> bool {
        self.args.should_stop()
    }

    /// Builds the vocabulary table: entry `k` is `nth_instr(k)`.
    fn build_table(&self) -> (r: Vec<Instruction>)
        requires
            1 <= self.args.mem_size <= 0x1000,
        ensures
            r@.len() == instr_count(self.args.mem_size as nat, self.args.max_num as nat),
            forall|k: int|
                0 <= k < r@.len() ==> #[trigger] r@[k] == nth_instr(
                    k as nat,
                    self.args.mem_size as nat,
                    self.args.max_num as nat,
                ),
            forall|k: int|
                0 <= k < r@.len() ==> wf_search(
                    #[trigger] r@[k],
                    self.args.mem_size as nat,
                    self.args.max_num as nat,
                ),
    {
        let m = self.args.mem_size;
        let mx = self.args.max_num;
        let ghost mem = m as nat;
        let ghost l = (mx + 1) as nat;
        let ghost mm = mem * mem;
        let mut table: Vec<Instruction> = Vec::new();
        // Loads.
        let mut v: u16 = 0;
        while v <= mx as u16
            invariant
                v <= mx + 1,
                mx < 256,
                table@.len() == v,
                forall|k: int|
                    0 <= k < table@.len() ==> #[trigger] table@[k] == nth_instr(k as nat, mem, mx as nat),
            decreases mx + 1 - v,
        {
            table.push(Instruction::Load(v as u8));
            v = v + 1;
        }
        // The six register-operation blocks, two-address then one-address.
        table = self.push_two_addr_block(table, 0);  // Swap
        table = self.push_two_addr_block(table, 1);  // XOR
        table = self.push_one_addr_block(table, 0);  // Inc
        table = self.push_one_addr_block(table, 1);  // Decr
        table = self.push_two_addr_block(table, 2);  // Add
        table = self.push_two_addr_block(table, 3);  // Sub
        proof {
            assert(table@.len() == instr_count(mem, mx as nat));
            assert forall|k: int|
                0 <= k < table@.len() implies wf_search(#[trigger] table@[k], mem, mx as nat) by {
                lemma_table_entry_wf(k as nat, mem, mx as nat);
            }
        }
        table
    }

    /// Appends one two-address block (`Swap`, `XOR`, `Add` or `Sub`).
    fn push_two_addr_block(&self, table: Vec<Instruction>, which: u8) -> (r: Vec<Instruction>)
        requires
            1 <= self.args.mem_size <= 0x1000,
            which < 4,
            table@.len() == two_addr_block_start(
                which as nat,
                self.args.mem_size as nat,
                self.args.max_num as nat,
            ),
            forall|k: int|
                0 <= k < table@.len() ==> #[trigger] table@[k] == nth_instr(
                    k as nat,
                    self.args.mem_size as nat,
                    self.args.max_num as nat,
                ),
        ensures
            r@.len() == table@.len() + (self.args.mem_size as nat) * (self.args.mem_size as nat),
            forall|k: int|
                0 <= k < r@.len() ==> #[trigger] r@[k] == nth_instr(
                    k as nat,
                    self.args.mem_size as nat,
                    self.args.max_num as nat,
                ),
    {
        let m = self.args.mem_size;
        let ghost mem = m as nat;
        let ghost mx = self.args.max_num as nat;
        let ghost start = table@.len() as nat;
        let mut table = table;
        let mut a: usize = 0;
        while a < m
            invariant
                a <= m,
                1 <= m <= 0x1000,
                table@.len() == start + a * mem,
                mem == m as nat,
                start == two_addr_block_start(which as nat, mem, mx),
                mx == self.args.max_num as nat,
                which < 4,
                self.args.mem_size == m,
                forall|k: int|
                    0 <= k < table@.len() ==> #[trigger] table@[k] == nth_instr(k as nat, mem, mx),
            decreases m - a,
        {
            let mut b: usize = 0;
            while b < m
                invariant
                    a < m,
                    b <= m,
                    1 <= m <= 0x1000,
                    table@.len() == start + a * mem + b,
                    mem == m as nat,
                    start == two_addr_block_start(which as nat, mem, mx),
                    mx == self.args.max_num as nat,
                    which < 4,
                    self.args.mem_size == m,
                    forall|k: int|
                        0 <= k < table@.len() ==> #[trigger] table@[k] == nth_instr(
                            k as nat,
                            mem,
                            mx,
                        ),
                decreases m - b,
            {
                let i = if which == 0 {
                    Instruction::Swap(a, b)
                } else if which == 1 {
                    Instruction::XOR(a, b)
                } else if which == 2 {
                    Instruction::Add(a, b)
                } else {
                    Instruction::Sub(a, b)
                };
                proof {
                    lemma_addr_pair(a as nat, b as nat, mem);
                    assert(a * mem + b < mem * mem);
                    assert(nth_instr(start + a as nat * mem + b as nat, mem, mx) == i) by {
                        lemma_two_addr_entry(which as nat, a as nat, b as nat, mem, mx);
                    }
                }
                table.push(i);
                b = b + 1;
            }
            proof {
                assert(start + a * mem + mem == start + (a + 1) * mem) by (nonlinear_arith);
            }
            a = a + 1;
        }
        proof {
            assert(start + m as nat * mem == start + mem * mem) by (nonlinear_arith)
                requires
                    mem == m as nat,
            ;
        }
        table
    }

    /// Appends one one-address block (`Inc` or `Decr`).
    fn push_one_addr_block(&self, table: Vec<Instruction>, which: u8) -> (r: Vec<Instruction>)
        requires
            1 <= self.args.mem_size <= 0x1000,
            which < 2,
            table@.len() == one_addr_block_start(
                which as nat,
                self.args.mem_size as nat,
                self.args.max_num as nat,
            ),
            forall|k: int|
                0 <= k < table@.len() ==> #[trigger] table@[k] == nth_instr(
                    k as nat,
                    self.args.mem_size as nat,
                    self.args.max_num as nat,
                ),
        ensures
            r@.len() == table@.len() + self.args.mem_size as nat,
            forall|k: int|
                0 <= k < r@.len() ==> #[trigger] r@[k] == nth_instr(
                    k as nat,
                    self.args.mem_size as nat,
                    self.args.max_num as nat,
                ),
    {
        let m = self.args.mem_size;
        let ghost mem = m as nat;
        let ghost mx = self.args.max_num as nat;
        let ghost start = table@.len() as nat;
        let mut table = table;
        let mut a: usize = 0;
        while a < m
            invariant
                a <= m,
                1 <= m,
                table@.len() == start + a,
                mem == m as nat,
                start == one_addr_block_start(which as nat, mem, mx),
                mx == self.args.max_num as nat,
                which < 2,
                self.args.mem_size == m,
                forall|k: int|
                    0 <= k < table@.len() ==> #[trigger] table@[k] == nth_instr(k as nat, mem, mx),
            decreases m - a,
        {
            let i = if which == 0 {
                Instruction::Inc(a)
            } else {
                Instruction::Decr(a)
            };
            proof {
                assert(nth_instr(start + a as nat, mem, mx) == i) by {
                    lemma_one_addr_entry(which as nat, a as nat, mem, mx);
                }
            }
            table.push(i);
            a = a + 1;
        }
        table
    }
}

impl<'a> ExhaustiveOptimizer<'a> {
    /// Enumerates every candidate of one length, in rank order.  A completed
    /// pass guarantees that no equivalent program of this length is shorter
    /// than the best now known.  The pass stops early, still complete, once
    /// the best program is no longer than this length, and reports an
    /// incomplete pass when cancelled or when the rank space overflows.
    #[verifier::loop_isolation(false)]
    fn run_length(&mut self, len_l: usize, table: &Vec<Instruction>) -> (completed: bool)
        requires
            old(self).args.wf(),
            len_l >= 1,
            table@.len() == instr_count(
                old(self).args.mem_size as nat,
                old(self).args.max_num as nat,
            ),
            table@.len() <= u64::MAX,
            forall|k: int|
                0 <= k < table@.len() ==> #[trigger] table@[k] == nth_instr(
                    k as nat,
                    old(self).args.mem_size as nat,
                    old(self).args.max_num as nat,
                ),
            forall|k: int|
                0 <= k < table@.len() ==> wf_search(
                    #[trigger] table@[k],
                    old(self).args.mem_size as nat,
                    old(self).args.max_num as nat,
                ),
        ensures
            final(self).args.wf(),
            final(self).args.same_config(old(self).args),
            final(self).args.optimal@.len() <= old(self).args.optimal@.len(),
            final(self).args.optimal == old(self).args.optimal || (final(
                self).args.optimal@.len() < old(self).args.optimal@.len() && wf_search_seq(
                final(self).args.optimal@,
                old(self).args.mem_size as nat,
                old(self).args.max_num as nat,
            ) && final(self).args.optimal@.len() == len_l),
            completed ==> forall|s: Seq<Instruction>|
                #![auto]
                wf_search_seq(s, old(self).args.mem_size as nat, old(self).args.max_num as nat)
                    && s.len() == len_l && spec_compute(
                    s,
                    old(self).args.mem_size as nat,
                    old(self).args.step_budget as nat,
                ) == Some(old(self).args.target@) ==> final(self).args.optimal@.len() <= s.len(),
    {
        let ghost mem = self.args.mem_size as nat;
        let ghost mx = self.args.max_num as nat;
        let c_len = table.len();
        let c: u64 = c_len as u64;
        proof {
            assert(c >= 1);
        }
        let total = match checked_pow_u64(c, len_l) {
            Some(t) => t,
            None => {
                return false;
            },
        };
        let mut r: u64 = 0;
        while r < total
            invariant
                self.args.wf(),
                self.args.same_config(old(self).args),
                self.args.optimal@.len() <= old(self).args.optimal@.len(),
                self.args.optimal == old(self).args.optimal || (self.args.optimal@.len() < old(
                    self,
                ).args.optimal@.len() && wf_search_seq(self.args.optimal@, mem, mx)
                    && self.args.optimal@.len() == len_l),
                c == instr_count(mem, mx),
                total == pow_nat(c as nat, len_l as nat),
                forall|s: Seq<Instruction>|
                    #![auto]
                    wf_search_seq(s, mem, mx) && s.len() == len_l && rank_of(s, mem, mx) < r
                        && spec_compute(s, mem, self.args.step_budget as nat) == Some(
                        self.args.target@,
                    ) ==> self.args.optimal@.len() <= len_l,
            decreases total - r,
        {
            if self.should_stop() {
                return false;
            }
            if self.args.current_optimal_length() <= len_l {
                // Nothing of this length can be strictly shorter any more.
                return true;
            }
            // Unpack the digits of this rank, least significant first.
            let mut digits: Vec<u64> = Vec::new();
            let mut rem: u64 = r;
            let mut j: usize = 0;
            while j < len_l
                invariant
                    j <= len_l,
                    digits@.len() == j,
                    rem == (r as nat) / pow_nat(c as nat, j as nat),
                    forall|jj: int|
                        0 <= jj < j ==> #[trigger] digits@[jj] == rank_digit(
                            r as nat,
                            jj as nat,
                            c as nat,
                        ) && digits@[jj] < c,
                decreases len_l - j,
            {
                let d = rem % c;
                proof {
                    lemma_pow_commute(c as nat, j as nat);
                    lemma_pow_mono(c as nat, 0, j as nat);
                    lemma_div_denominator(
                        r as int,
                        pow_nat(c as nat, j as nat) as int,
                        c as int,
                    );
                    assert(rem / c == (r as nat) / pow_nat(c as nat, (j + 1) as nat));
                    assert(d == rank_digit(r as nat, j as nat, c as nat));
                }
                digits.push(d);
                rem = rem / c;
                j = j + 1;
            }
            // Assemble the candidate, most significant digit first.
            let mut cand: Vec<Instruction> = Vec::new();
            let mut p: usize = 0;
            while p < len_l
                invariant
                    p <= len_l,
                    cand@.len() == p,
                    digits@.len() == len_l,
                    c == instr_count(mem, mx),
                    table@.len() == instr_count(mem, mx),
                    forall|k: int|
                        0 <= k < table@.len() ==> #[trigger] table@[k] == nth_instr(
                            k as nat,
                            mem,
                            mx,
                        ),
                    forall|k: int|
                        0 <= k < table@.len() ==> wf_search(#[trigger] table@[k], mem, mx),
                    forall|jj: int|
                        0 <= jj < len_l ==> #[trigger] digits@[jj] == rank_digit(
                            r as nat,
                            jj as nat,
                            c as nat,
                        ) && digits@[jj] < c,
                    forall|jj: int|
                        0 <= jj < p ==> #[trigger] cand@[jj] == nth_instr(
                            rank_digit(r as nat, (len_l - 1 - jj) as nat, c as nat),
                            mem,
                            mx,
                        ) && wf_search(cand@[jj], mem, mx),
                decreases len_l - p,
            {
                let d = digits[len_l - 1 - p];
                cand.push(table[d as usize]);
                p = p + 1;
            }
            proof {
                assert(cand@ =~= rank_seq(r as nat, len_l as nat, mem, mx));
            }
            let candidate = Program { instructions: cand };
            let ghost cand_view = candidate@;
            let replaced = self.args.try_replace_if_shorter(candidate);
            self.args.note_candidate();
            proof {
                assert forall|s: Seq<Instruction>|
                    #![auto]
                    wf_search_seq(s, mem, mx) && s.len() == len_l && rank_of(s, mem, mx) < r + 1
                        && spec_compute(s, mem, self.args.step_budget as nat) == Some(
                        self.args.target@,
                    ) implies self.args.optimal@.len() <= len_l by {
                    if rank_of(s, mem, mx) == r {
                        lemma_rank_round(s, mem, mx);
                        assert(s == cand_view);
                    }
                }
            }
            r = r + 1;
        }
        proof {
            assert forall|s: Seq<Instruction>|
                #![auto]
                wf_search_seq(s, mem, mx) && s.len() == len_l && spec_compute(
                    s,
                    mem,
                    self.args.step_budget as nat,
                ) == Some(self.args.target@) implies self.args.optimal@.len() <= s.len() by {
                lemma_rank_round(s, mem, mx);
            }
        }
        true
    }

    /// The whole exhaustive search: every length from one up to the
    /// configured cap, each length enumerated completely, shortest first.
    ///
    /// When the search runs to completion, the best-known program is a
    /// shortest equivalent among all vocabulary programs within the length
    /// cap: exhaustive enumeration is optimal.  A cancelled run reports
    /// `false` and still leaves a valid, never-worse best program.
    #[verifier::loop_isolation(false)]
    pub fn start_optimization(&mut self) -> (completed: bool)
        requires
            old(self).args.wf(),
        ensures
            final(self).args.wf(),
            final(self).args.same_config(old(self).args),
            final(self).args.optimal@.len() <= old(self).args.optimal@.len(),
            final(self).args.optimal == old(self).args.optimal || (final(
                self).args.optimal@.len() < old(self).args.optimal@.len() && wf_search_seq(
                final(self).args.optimal@,
                old(self).args.mem_size as nat,
                old(self).args.max_num as nat,
            ) && 1 <= final(self).args.optimal@.len() <= old(self).args.max_instructions),
            completed ==> forall|s: Seq<Instruction>|
                #![auto]
                wf_search_seq(s, old(self).args.mem_size as nat, old(self).args.max_num as nat)
                    && 1 <= s.len() <= old(self).args.max_instructions && spec_compute(
                    s,
                    old(self).args.mem_size as nat,
                    old(self).args.step_budget as nat,
                ) == Some(old(self).args.target@) ==> final(self).args.optimal@.len() <= s.len(),
    {
        let ghost mem = self.args.mem_size as nat;
        let ghost mx = self.args.max_num as nat;
        let table = self.build_table();
        proof {
            assert(table@.len() <= (255 + 1) + 4 * (0x1000 * 0x1000) + 2 * 0x1000)
                by (nonlinear_arith)
                requires
                    table@.len() == instr_count(mem, mx),
                    mem <= 0x1000,
                    mx <= 255,
            ;
        }
        let maxi = self.args.max_instructions;
        let mut l: usize = 1;
        while l <= maxi
            invariant
                self.args.wf(),
                self.args.same_config(old(self).args),
                self.args.optimal@.len() <= old(self).args.optimal@.len(),
                self.args.optimal == old(self).args.optimal || (self.args.optimal@.len() < old(
                    self,
                ).args.optimal@.len() && wf_search_seq(self.args.optimal@, mem, mx) && 1
                    <= self.args.optimal@.len() <= maxi),
                1 <= l,
                maxi == self.args.max_instructions,
                table@.len() == instr_count(mem, mx),
                table@.len() <= u64::MAX,
                forall|k: int|
                    0 <= k < table@.len() ==> #[trigger] table@[k] == nth_instr(k as nat, mem, mx),
                forall|k: int|
                    0 <= k < table@.len() ==> wf_search(#[trigger] table@[k], mem, mx),
                forall|s: Seq<Instruction>|
                    #![auto]
                    wf_search_seq(s, mem, mx) && 1 <= s.len() < l && spec_compute(
                        s,
                        mem,
                        self.args.step_budget as nat,
                    ) == Some(self.args.target@) ==> self.args.optimal@.len() <= s.len(),
            decreases maxi + 1 - l,
        {
            let done = self.run_length(l, &table);
            if !done {
                return false;
            }
            if l == usize::MAX {
                // The next length cannot even be counted; the run cannot
                // finish the configured range.
                return false;
            }
            l = l + 1;
        }
        true
    }
}

/// A program eligible to be the outcome of an exhaustive run over
/// `input`: the input itself, or a vocabulary program within the length
/// cap.
pub open spec fn candidate_program(
    p: Seq<Instruction>,
    input: Seq<Instruction>,
    mem_size: nat,
    max_num: nat,
    max_instructions: nat,
) -> bool {
    p == input || (wf_search_seq(p, mem_size, max_num) && 1 <= p.len() <= max_instructions)
}

/// Exhaustive enumeration is optimal.  What a completed
/// `start_optimization` run ensures of its final best program — it is a
/// candidate over the input, it reproduces the target, it is never longer
/// than the input, and no equivalent vocabulary program within the cap is
/// shorter — makes that program a shortest member of the whole candidate
/// set: no candidate that reproduces the target beats its length, and it
/// is itself one of them.
pub proof fn lemma_exhaustive_minimum(
    input: Seq<Instruction>,
    best: Seq<Instruction>,
    mem_size: nat,
    max_num: nat,
    max_instructions: nat,
    step_budget: nat,
    target: Seq<u8>,
)
    requires
        spec_compute(best, mem_size, step_budget) == Some(target),
        candidate_program(best, input, mem_size, max_num, max_instructions),
        best.len() <= input.len(),
        forall|s: Seq<Instruction>|
            #![auto]
            wf_search_seq(s, mem_size, max_num) && 1 <= s.len() <= max_instructions
                && spec_compute(s, mem_size, step_budget) == Some(target) ==> best.len()
                <= s.len(),
    ensures
        forall|p: Seq<Instruction>|
            #![auto]
            candidate_program(p, input, mem_size, max_num, max_instructions) && spec_compute(
                p,
                mem_size,
                step_budget,
            ) == Some(target) ==> best.len() <= p.len(),
{
    assert forall|p: Seq<Instruction>|
        #![auto]
        candidate_program(p, input, mem_size, max_num, max_instructions) && spec_compute(
            p,
            mem_size,
            step_budget,
        ) == Some(target) implies best.len() <= p.len() by {
        if p == input {
            assert(best.len() <= p.len());
        }
    }
}

/// Start offset of two-address block `which` (`Swap`, `XOR`, `Add`, `Sub`).
pub open spec fn two_addr_block_start(which: nat, mem_size: nat, max_num: nat) -> nat {
    let l = max_num + 1;
    let mm = mem_size * mem_size;
    if which == 0 {
        l
    } else if which == 1 {
        l + mm
    } else if which == 2 {
        l + 2 * mm + 2 * mem_size
    } else {
        l + 3 * mm + 2 * mem_size
    }
}

/// Start offset of one-address block `which` (`Inc`, `Decr`).
pub open spec fn one_addr_block_start(which: nat, mem_size: nat, max_num: nat) -> nat {
    let l = max_num + 1;
    let mm = mem_size * mem_size;
    if which == 0 {
        l + 2 * mm
    } else {
        l + 2 * mm + mem_size
    }
}

/// The table entry of a two-address block position.
proof fn lemma_two_addr_entry(which: nat, a: nat, b: nat, mem_size: nat, max_num: nat)
    requires
        which < 4,
        a < mem_size,
        b < mem_size,
    ensures
        nth_instr(two_addr_block_start(which, mem_size, max_num) + a * mem_size + b, mem_size, max_num)
            == (if which == 0 {
            Instruction::Swap(a as usize, b as usize)
        } else if which == 1 {
            Instruction::XOR(a as usize, b as usize)
        } else if which == 2 {
            Instruction::Add(a as usize, b as usize)
        } else {
            Instruction::Sub(a as usize, b as usize)
        }),
{
    lemma_addr_pair(a, b, mem_size);
}

/// The table entry of a one-address block position.
proof fn lemma_one_addr_entry(which: nat, a: nat, mem_size: nat, max_num: nat)
    requires
        which < 2,
        a < mem_size,
    ensures
        nth_instr(one_addr_block_start(which, mem_size, max_num) + a, mem_size, max_num) == (
        if which == 0 {
            Instruction::Inc(a as usize)
        } else {
            Instruction::Decr(a as usize)
        }),
{
    assert(mem_size * mem_size >= 0);
}

/// Every table entry is in the vocabulary.
proof fn lemma_table_entry_wf(k: nat, mem_size: nat, max_num: nat)
    requires
        mem_size >= 1,
        k < instr_count(mem_size, max_num),
    ensures
        wf_search(nth_instr(k, mem_size, max_num), mem_size, max_num),
{
    let l = max_num + 1;
    let mm = mem_size * mem_size;
    if k < l {
    } else if k < l + mm {
        lemma_offset_pair((k - l) as nat, mem_size);
    } else if k < l + 2 * mm {
        lemma_offset_pair((k - l - mm) as nat, mem_size);
    } else if k < l + 2 * mm + mem_size {
    } else if k < l + 2 * mm + 2 * mem_size {
    } else if k < l + 3 * mm + 2 * mem_size {
        lemma_offset_pair((k - l - 2 * mm - 2 * mem_size) as nat, mem_size);
    } else {
        lemma_offset_pair((k - l - 3 * mm - 2 * mem_size) as nat, mem_size);
    }
}

/// An in-range block offset unpacks to two in-range addresses.
proof fn lemma_offset_pair(k2: nat, mem_size: nat)
    requires
        mem_size >= 1,
        k2 < mem_size * mem_size,
    ensures
        k2 / mem_size < mem_size,
        k2 % mem_size < mem_size,
{
    assert(k2 / mem_size < mem_size && k2 % mem_size < mem_size) by (nonlinear_arith)
        requires
            mem_size >= 1,
            k2 < mem_size * mem_size,
    ;
}

} // verus!
