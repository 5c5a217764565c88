//! A bare machine layout: registers and segments only, with no free
//! identifier pool or program counter.
use vstd::prelude::*;

verus! {

/// Registers and segments of a machine that has not been given a program.
pub struct UniversalMachine {
    /// The registers, created empty.
    pub registers: Vec<u32>,
    /// The segments; segment 0 starts empty.
    pub segments: Vec<Vec<u32>>,
}

impl UniversalMachine {
    /// No registers yet and one empty segment.
    pub fn new() -> (um: Self)
        ensures
            um.registers@ == Seq::<u32>::empty(),
            um.segments@.len() == 1,
            um.segments@[0]@ == Seq::<u32>::empty(),
    {
        let mut segments: Vec<Vec<u32>> = Vec::new();
        segments.push(Vec::new());
        Self { registers: Vec::with_capacity(8), segments }
    }
}

} // verus!
