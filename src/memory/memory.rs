//! A plain instruction store addressed by index.
use vstd::prelude::*;

use crate::instructions::{InstrView, InstructionSet};

verus! {

/// Instructions addressed by index.
pub struct Memory {
    pub data: Vec<InstructionSet>,
}

impl View for Memory {
    type V = Seq<InstrView>;

    open spec fn view(&self) -> Seq<InstrView> {
        self.data@.map_values(|i: InstructionSet| i@)
    }
}

impl Memory {
    /// An empty store.
    pub fn new() -> (r: Memory)
        ensures
            r@ == Seq::<InstrView>::empty(),
    {
        let r = Memory { data: Vec::new() };
        proof {
            assert(r@ =~= Seq::<InstrView>::empty());
        }
        r
    }

    /// The instruction at `idx`.
    pub fn get_value(&self, idx: usize) -> (r: &InstructionSet)
        requires
            idx < self@.len(),
        ensures
            r@ == self@[idx as int],
    {
        &self.data[idx]
    }

    /// Appends an instruction and returns its index, truncated to a byte.
    pub fn add_value(&mut self, value: InstructionSet) -> (r: u8)
        ensures
            final(self)@ == old(self)@.push(value@),
            r == (old(self)@.len() as int % 256) as u8,
    {
        self.data.push(value);
        proof {
            assert(self@ =~= old(self)@.push(value@));
        }
        let n = self.data.len() - 1;
        (n % 256) as u8
    }

    /// Replaces the instruction at `idx`.
    pub fn set_value(&mut self, idx: usize, value: InstructionSet)
        requires
            idx < old(self)@.len(),
        ensures
            final(self)@ == old(self)@.update(idx as int, value@),
    {
        self.data.set(idx, value);
        proof {
            assert(self@ =~= old(self)@.update(idx as int, value@));
        }
    }

    /// Replaces the whole program.
    pub fn load_program(&mut self, program: Vec<InstructionSet>)
        ensures
            final(self)@ == program@.map_values(|i: InstructionSet| i@),
    {
        self.data = program;
    }
}

} // verus!
