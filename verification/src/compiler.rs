//! The compiler stage from the source language to machine instructions.
//! The translation itself is a placeholder: it emits a fixed preamble and
//! no code for the program yet.

use vstd::prelude::*;

use crate::ast::Program;
use crate::instruction::Instruction;

verus! {

/// The compiler: a source program and the assembly emitted so far.
#[derive(Debug)]
pub struct Compiler {
    pub program: Program,
    pub assembly: Vec<Instruction>,
}

impl Compiler {
    /// Creates a compiler for one source program, with no assembly yet.
    pub fn new(program: Program) -> (r: Self)
        ensures
            r.assembly@ == Seq::<Instruction>::empty(),
            r.program == program,
    {
        Compiler { program, assembly: vec![] }
    }

    /// Appends one instruction to the assembly.
    pub fn emit(&mut self, instruction: Instruction)
        ensures
            final(self).assembly@ == old(self).assembly@.push(instruction),
            final(self).program == old(self).program,
    {
        self.assembly.push(instruction);
    }

    /// Runs the (placeholder) translation: a fixed preamble that increments
    /// the first two cells twice each.
    pub fn compile(&mut self)
        ensures
            final(self).assembly@ == old(self).assembly@ + seq![
                Instruction::Inc(0),
                Instruction::Inc(0),
                Instruction::Inc(1),
                Instruction::Inc(1),
            ],
            final(self).program == old(self).program,
    {
        self.emit(Instruction::Inc(0));
        self.emit(Instruction::Inc(0));
        self.emit(Instruction::Inc(1));
        self.emit(Instruction::Inc(1));
        proof {
            assert(self.assembly@ =~= old(self).assembly@ + seq![
                Instruction::Inc(0),
                Instruction::Inc(0),
                Instruction::Inc(1),
                Instruction::Inc(1),
            ]);
        }
    }
}

} // verus!
