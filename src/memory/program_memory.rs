//! The program store: the decoded instructions, indexed from 0.
use vstd::prelude::*;

use crate::instructions::{InstrView, InstructionSet};

verus! {

/// The instructions of a program.
pub struct ProgramMemory {
    pub program: Vec<InstructionSet>,
}

impl View for ProgramMemory {
    type V = Seq<InstrView>;

    open spec fn view(&self) -> Seq<InstrView> {
        self.program@.map_values(|i: InstructionSet| i@)
    }
}

impl ProgramMemory {
    /// An empty store.
    pub fn new() -> (r: ProgramMemory)
        ensures
            r@ == Seq::<InstrView>::empty(),
    {
        let r = ProgramMemory { program: Vec::new() };
        proof {
            assert(r@ =~= Seq::<InstrView>::empty());
        }
        r
    }

    /// The instruction at `idx`.
    pub fn get_instruction(&self, idx: usize) -> (r: &InstructionSet)
        requires
            idx < self@.len(),
        ensures
            r@ == self@[idx as int],
    {
        &self.program[idx]
    }

    /// Appends an instruction and returns its index, truncated to a byte.
    pub fn add_instruction(&mut self, value: InstructionSet) -> (r: u8)
        ensures
            final(self)@ == old(self)@.push(value@),
            r == (old(self)@.len() as int % 256) as u8,
    {
        self.program.push(value);
        proof {
            assert(self@ =~= old(self)@.push(value@));
        }
        let n = self.program.len() - 1;
        (n % 256) as u8
    }

    /// Replaces the instruction at `idx`.
    pub fn set_instruction(&mut self, idx: usize, value: InstructionSet)
        requires
            idx < old(self)@.len(),
        ensures
            final(self)@ == old(self)@.update(idx as int, value@),
    {
        self.program.set(idx, value);
        proof {
            assert(self@ =~= old(self)@.update(idx as int, value@));
        }
    }

    /// Replaces the whole program.
    pub fn load_program(&mut self, program: Vec<InstructionSet>)
        ensures
            final(self)@ == program@.map_values(|i: InstructionSet| i@),
    {
        self.program = program;
    }

    /// The instructions.
    pub fn program(&self) -> (r: &Vec<InstructionSet>)
        ensures
            r@.map_values(|i: InstructionSet| i@) == self@,
    {
        &self.program
    }
}

} // verus!
