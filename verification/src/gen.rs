//! Random program generation for the `gen` command: a size range, an
//! immediate range, and a set of allowed instruction kinds.

use vstd::prelude::*;

use crate::instruction::Instruction;
use crate::program::Program;
use crate::rng::{rand_u8_inclusive, rand_usize_inclusive};

verus! {

/// One mnemonic of the generator vocabulary (`Jmp` is never generated).
#[derive(Debug, Clone, Copy, PartialEq, Eq, Structural)]
pub enum InstrKind {
    Load,
    Swap,
    Xor,
    Inc,
    Decr,
    Add,
    Sub,
    Put,
}

/// The kind of an instruction, for checking what the generator produced.
pub open spec fn kind_of(i: Instruction) -> InstrKind {
    match i {
        Instruction::Load(_) => InstrKind::Load,
        Instruction::Swap(_, _) => InstrKind::Swap,
        Instruction::XOR(_, _) => InstrKind::Xor,
        Instruction::Inc(_) => InstrKind::Inc,
        Instruction::Decr(_) => InstrKind::Decr,
        Instruction::Add(_, _) => InstrKind::Add,
        Instruction::Sub(_, _) => InstrKind::Sub,
        Instruction::Put(_) => InstrKind::Put,
        Instruction::Jmp(_) => InstrKind::Load,
    }
}

/// Draws one instruction of the given kind, addresses below `mem_size` and
/// a `Load` immediate inside the given range.
pub fn generate_of_kind(kind: InstrKind, mem_size: usize, min_imm: u8, max_imm: u8) -> (r:
    Instruction)
    requires
        mem_size >= 1,
        min_imm <= max_imm,
    ensures
        r.wf(mem_size as nat),
        kind_of(r) == kind,
        !(r is Jmp),
        r matches Instruction::Load(v) ==> min_imm <= v <= max_imm,
{
    let a = rand_usize_inclusive(0, mem_size - 1);
    let b = rand_usize_inclusive(0, mem_size - 1);
    match kind {
        InstrKind::Load => Instruction::Load(rand_u8_inclusive(min_imm, max_imm)),
        InstrKind::Swap => Instruction::Swap(a, b),
        InstrKind::Xor => Instruction::XOR(a, b),
        InstrKind::Inc => Instruction::Inc(a),
        InstrKind::Decr => Instruction::Decr(a),
        InstrKind::Add => Instruction::Add(a, b),
        InstrKind::Sub => Instruction::Sub(a, b),
        InstrKind::Put => Instruction::Put(a),
    }
}

/// Generates a random program: a length drawn from the given range, each
/// instruction of a kind drawn from `kinds`.  An empty kind set or an
/// empty range yields `None`; otherwise every instruction is well-formed,
/// of an allowed kind, with immediates inside the given range.
pub fn generate_random_program(
    min_instructions: usize,
    max_instructions: usize,
    min_imm: u8,
    max_imm: u8,
    kinds: &Vec<InstrKind>,
    mem_size: usize,
) -> (r: Option<Program>)
    requires
        mem_size >= 1,
    ensures
        r is Some <==> (kinds@.len() > 0 && min_instructions <= max_instructions && min_imm
            <= max_imm),
        r matches Some(p) ==> {
            &&& p.wf(mem_size as nat)
            &&& min_instructions <= p@.len() <= max_instructions
            &&& forall|i: int|
                0 <= i < p@.len() ==> kinds@.contains(kind_of(#[trigger] p@[i]))
            &&& forall|i: int|
                0 <= i < p@.len() ==> (#[trigger] p@[i] matches Instruction::Load(v) ==> min_imm
                    <= v <= max_imm)
        },
{
    if kinds.len() == 0 || min_instructions > max_instructions || min_imm > max_imm {
        return None;
    }
    let amount = rand_usize_inclusive(min_instructions, max_instructions);
    let mut program = Program::new();
    let mut k: usize = 0;
    while k < amount
        invariant
            k <= amount,
            mem_size >= 1,
            min_imm <= max_imm,
            kinds@.len() > 0,
            program@.len() == k,
            program.wf(mem_size as nat),
            forall|i: int| 0 <= i < k ==> kinds@.contains(kind_of(#[trigger] program@[i])),
            forall|i: int|
                0 <= i < k ==> (#[trigger] program@[i] matches Instruction::Load(v) ==> min_imm
                    <= v <= max_imm),
        decreases amount - k,
    {
        let which = rand_usize_inclusive(0, kinds.len() - 1);
        let i = generate_of_kind(kinds[which], mem_size, min_imm, max_imm);
        let ghost before = program@;
        program.instructions.push(i);
        proof {
            assert(kinds@.contains(kind_of(i)));
            assert(forall|x: int| 0 <= x < before.len() ==> program@[x] == before[x]);
        }
        k = k + 1;
    }
    Some(program)
}

} // verus!
