//! The run-time faults that stop the machine.
use vstd::prelude::*;

verus! {

/// Why a run stopped abnormally. Every fault ends the run.
#[derive(Clone, Copy, Debug, PartialEq, Eq, Structural)]
pub enum Fault {
    /// The program counter lies outside segment 0.
    ProgramCounterOutOfRange,
    /// The operation code is 14 or 15.
    InvalidOpcode,
    /// A division whose divisor is zero.
    DivideByZero,
    /// A segment identifier that names no mapped segment.
    UnmappedSegment,
    /// An offset at or beyond the end of its segment.
    OffsetOutOfRange,
    /// An attempt to unmap segment 0.
    UnmapProgramSegment,
    /// An attempt to unmap an identifier that is not mapped.
    UnmapUnmappedSegment,
    /// An output value above 255.
    OutputOutOfRange,
    /// Every 32-bit segment identifier is in use.
    IdentifiersExhausted,
}

} // verus!
