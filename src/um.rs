//! The machine state: eight registers, the segment table and the program
//! counter.
use crate::segment::{SegmentTable, SegmentsModel};
use vstd::prelude::*;

verus! {

/// The abstract machine state.
pub struct MachineModel {
    pub regs: Seq<u32>,
    pub table: SegmentsModel,
    pub pc: nat,
}

impl MachineModel {
    /// Eight registers and a consistent segment table.
    pub open spec fn wf(self) -> bool {
        self.regs.len() == 8 && self.table.wf()
    }

    /// The value of register `i`.
    pub open spec fn reg(self, i: u32) -> u32 {
        self.regs[i as int]
    }

    /// The state with register `i` set to `v`.
    pub open spec fn set_reg(self, i: u32, v: u32) -> MachineModel {
        MachineModel { regs: self.regs.update(i as int, v), ..self }
    }
}

/// A running machine.
pub struct UniversalMachine {
    /// The eight registers.
    pub r: Vec<u32>,
    /// The machine's memory; segment 0 holds the running program.
    pub segments: SegmentTable,
    /// Offset in segment 0 of the next instruction.
    pub program_counter: usize,
}

impl View for UniversalMachine {
    type V = MachineModel;

    open spec fn view(&self) -> MachineModel {
        MachineModel { regs: self.r@, table: self.segments@, pc: self.program_counter as nat }
    }
}

impl UniversalMachine {
    /// The state is consistent.
    pub open spec fn wf(&self) -> bool {
        self@.wf()
    }

    /// A machine with zero registers, an empty segment 0 and the program
    /// counter at 0.
    pub fn new() -> (um: Self)
        ensures
            um.wf(),
            um@.regs == Seq::new(8, |i: int| 0u32),
            um@.table.segs == seq![Seq::<u32>::empty()],
            um@.table.mapped == seq![true],
            um@.table.free == Seq::<u32>::empty(),
            um@.pc == 0,
    {
        Self::with_program(Vec::new())
    }

    /// A machine with zero registers, `program` in segment 0 and the program
    /// counter at 0.
    pub fn with_program(program: Vec<u32>) -> (um: Self)
        ensures
            um.wf(),
            um@.regs == Seq::new(8, |i: int| 0u32),
            um@.table.segs == seq![program@],
            um@.table.mapped == seq![true],
            um@.table.free == Seq::<u32>::empty(),
            um@.pc == 0,
    {
        let r = vec![0u32; 8];
        assert(r@ =~= Seq::new(8, |i: int| 0u32));
        UniversalMachine { r, segments: SegmentTable::new(program), program_counter: 0 }
    }
}

} // verus!
