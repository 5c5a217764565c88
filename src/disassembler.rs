//! Decoding of instruction words into operations and operand fields.
use crate::bitpack::{field_value, getu};
use crate::fault::Fault;
use crate::instructions;
use crate::instructions::{
    add_result,
    cmov,
    cmov_result,
    div,
    div_result,
    input,
    load_program,
    load_program_result,
    load_value,
    load_value_result,
    map_seg,
    map_seg_result,
    mul_result,
    nand,
    nand_result,
    output,
    output_result,
    seg_load,
    seg_load_result,
    seg_store,
    seg_store_result,
    unmap_seg,
    unmap_seg_result,
};
use crate::um::{MachineModel, UniversalMachine};
use vstd::arithmetic::div_mod::lemma_mod_division_less_than_divisor;
use vstd::arithmetic::power2::{lemma2_to64, lemma_pow2_pos, lemma_pow2_strictly_increases, pow2};
use vstd::prelude::*;

verus! {

/// Where a field lives inside an instruction word: `width` bits starting at
/// bit `lsb`.
#[derive(Clone, Copy, Debug, PartialEq, Eq, Structural)]
pub struct Field {
    pub width: u32,
    pub lsb: u32,
}

impl Field {
    /// The field lies inside a 32-bit word.
    pub open spec fn wf(&self) -> bool {
        self.width + self.lsb <= 32
    }
}

impl Field {
    /// Register A of the three-register layout.
    pub fn ra() -> (f: Field)
        ensures
            f == (Field { width: 3, lsb: 6 }),
    {
        Field { width: 3, lsb: 6 }
    }

    /// Register B of the three-register layout.
    pub fn rb() -> (f: Field)
        ensures
            f == (Field { width: 3, lsb: 3 }),
    {
        Field { width: 3, lsb: 3 }
    }

    /// Register C of the three-register layout.
    pub fn rc() -> (f: Field)
        ensures
            f == (Field { width: 3, lsb: 0 }),
    {
        Field { width: 3, lsb: 0 }
    }

    /// Destination register of the immediate layout.
    pub fn rl() -> (f: Field)
        ensures
            f == (Field { width: 3, lsb: 25 }),
    {
        Field { width: 3, lsb: 25 }
    }

    /// Immediate value of the immediate layout.
    pub fn vl() -> (f: Field)
        ensures
            f == (Field { width: 25, lsb: 0 }),
    {
        Field { width: 25, lsb: 0 }
    }

    /// Operation code.
    pub fn op() -> (f: Field)
        ensures
            f == (Field { width: 4, lsb: 28 }),
    {
        Field { width: 4, lsb: 28 }
    }
}

/// The value of `field` in `instruction`.
pub fn get(field: &Field, instruction: u32) -> (r: u32)
    requires
        field.wf(),
    ensures
        r == field_value(instruction as nat, field.width as nat, field.lsb as nat),
        r < pow2(field.width as nat),
{
    let v = getu(instruction as u64, field.width as u64, field.lsb as u64);
    proof {
        lemma_pow2_pos(field.width as nat);
        lemma_mod_division_less_than_divisor(
            (instruction as nat / pow2(field.lsb as nat)) as int,
            pow2(field.width as nat) as int,
        );
        lemma2_to64();
        if field.width < 32 {
            lemma_pow2_strictly_increases(field.width as nat, 32);
        }
    }
    v as u32
}

/// The operation code of `instruction`, its four highest bits.
pub fn op(instruction: u32) -> (r: u32)
    ensures
        r == field_value(instruction as nat, 4, 28),
        r < 16,
{
    proof {
        lemma2_to64();
    }
    get(&Field::op(), instruction)
}

/// A decoded instruction word. Register operands are indices 0 to 7.
#[derive(Clone, Copy, Debug, PartialEq, Eq, Structural)]
pub enum Instruction {
    /// If `r[c] != 0` then `r[a] := r[b]`.
    ConditionalMove { a: u32, b: u32, c: u32 },
    /// `r[a] := segment[r[b]][r[c]]`.
    SegmentLoad { a: u32, b: u32, c: u32 },
    /// `segment[r[a]][r[b]] := r[c]`.
    SegmentStore { a: u32, b: u32, c: u32 },
    /// `r[a] := r[b] + r[c]`, wrapping.
    Add { a: u32, b: u32, c: u32 },
    /// `r[a] := r[b] * r[c]`, wrapping.
    Multiply { a: u32, b: u32, c: u32 },
    /// `r[a] := r[b] / r[c]`; faults on a zero divisor.
    Divide { a: u32, b: u32, c: u32 },
    /// `r[a] := !(r[b] & r[c])`.
    Nand { a: u32, b: u32, c: u32 },
    /// Stops the machine.
    Halt,
    /// `r[b] :=` a new zeroed segment of `r[c]` words.
    MapSegment { b: u32, c: u32 },
    /// Frees segment `r[c]`.
    UnmapSegment { c: u32 },
    /// Emits the byte `r[c]`; faults above 255.
    Output { c: u32 },
    /// `r[c] :=` the next input byte, or all ones at the end of input.
    Input { c: u32 },
    /// Copies segment `r[b]` into segment 0 and jumps to `r[c]`.
    LoadProgram { b: u32, c: u32 },
    /// `r[x] := y`.
    LoadValue { x: u32, y: u32 },
    /// An operation code outside 0 to 13.
    Invalid { opcode: u32 },
}

impl Instruction {
    /// Register operands name one of the eight registers and the immediate
    /// fits in 25 bits.
    pub open spec fn wf(&self) -> bool {
        match *self {
            Instruction::ConditionalMove { a, b, c } => a < 8 && b < 8 && c < 8,
            Instruction::SegmentLoad { a, b, c } => a < 8 && b < 8 && c < 8,
            Instruction::SegmentStore { a, b, c } => a < 8 && b < 8 && c < 8,
            Instruction::Add { a, b, c } => a < 8 && b < 8 && c < 8,
            Instruction::Multiply { a, b, c } => a < 8 && b < 8 && c < 8,
            Instruction::Divide { a, b, c } => a < 8 && b < 8 && c < 8,
            Instruction::Nand { a, b, c } => a < 8 && b < 8 && c < 8,
            Instruction::Halt => true,
            Instruction::MapSegment { b, c } => b < 8 && c < 8,
            Instruction::UnmapSegment { c } => c < 8,
            Instruction::Output { c } => c < 8,
            Instruction::Input { c } => c < 8,
            Instruction::LoadProgram { b, c } => b < 8 && c < 8,
            Instruction::LoadValue { x, y } => x < 8 && y < 0x200_0000,
            Instruction::Invalid { opcode } => 14 <= opcode < 16,
        }
    }
}

/// The instruction that `word` encodes: the operation code in bits 28 to 31,
/// registers A, B and C in bits 6, 3 and 0 (three bits each), and for the
/// immediate load register X in bits 25 to 27 and a 25-bit value below it.
pub open spec fn decode_spec(word: u32) -> Instruction {
    let w = word as nat;
    let opcode = field_value(w, 4, 28);
    let a = field_value(w, 3, 6) as u32;
    let b = field_value(w, 3, 3) as u32;
    let c = field_value(w, 3, 0) as u32;
    if opcode == 0 {
        Instruction::ConditionalMove { a, b, c }
    } else if opcode == 1 {
        Instruction::SegmentLoad { a, b, c }
    } else if opcode == 2 {
        Instruction::SegmentStore { a, b, c }
    } else if opcode == 3 {
        Instruction::Add { a, b, c }
    } else if opcode == 4 {
        Instruction::Multiply { a, b, c }
    } else if opcode == 5 {
        Instruction::Divide { a, b, c }
    } else if opcode == 6 {
        Instruction::Nand { a, b, c }
    } else if opcode == 7 {
        Instruction::Halt
    } else if opcode == 8 {
        Instruction::MapSegment { b, c }
    } else if opcode == 9 {
        Instruction::UnmapSegment { c }
    } else if opcode == 10 {
        Instruction::Output { c }
    } else if opcode == 11 {
        Instruction::Input { c }
    } else if opcode == 12 {
        Instruction::LoadProgram { b, c }
    } else if opcode == 13 {
        Instruction::LoadValue {
            x: field_value(w, 3, 25) as u32,
            y: field_value(w, 25, 0) as u32,
        }
    } else {
        Instruction::Invalid { opcode: opcode as u32 }
    }
}

/// Decodes `word`. Decoding never fails: operation codes 14 and 15 decode to
/// `Invalid`, which the machine treats as a fault.
pub fn decode(word: u32) -> (r: Instruction)
    ensures
        r == decode_spec(word),
        r.wf(),
{
    proof {
        lemma2_to64();
    }
    let opcode = op(word);
    let a = get(&Field::ra(), word);
    let b = get(&Field::rb(), word);
    let c = get(&Field::rc(), word);
    match opcode {
        0 => Instruction::ConditionalMove { a, b, c },
        1 => Instruction::SegmentLoad { a, b, c },
        2 => Instruction::SegmentStore { a, b, c },
        3 => Instruction::Add { a, b, c },
        4 => Instruction::Multiply { a, b, c },
        5 => Instruction::Divide { a, b, c },
        6 => Instruction::Nand { a, b, c },
        7 => Instruction::Halt,
        8 => Instruction::MapSegment { b, c },
        9 => Instruction::UnmapSegment { c },
        10 => Instruction::Output { c },
        11 => Instruction::Input { c },
        12 => Instruction::LoadProgram { b, c },
        13 => {
            let x = get(&Field::rl(), word);
            let y = get(&Field::vl(), word);
            Instruction::LoadValue { x, y }
        },
        _ => Instruction::Invalid { opcode },
    }
}

/// What a step asks of the world around the machine.
#[derive(Clone, Copy, Debug, PartialEq, Eq, Structural)]
pub enum Action {
    /// Nothing: the next instruction may run.
    Continue,
    /// The machine has halted.
    Halt,
    /// The byte is to be written to the output.
    Output(u8),
    /// The next input byte, or its absence at the end of the input, is to be
    /// stored in register `register` (see `instructions::input`).
    Input { register: u32 },
}

/// The state and action of an instruction whose effect is `r`: a fault
/// leaves the state as it was.
pub open spec fn continue_with(m: MachineModel, r: Result<MachineModel, Fault>) -> (
    MachineModel,
    Result<Action, Fault>,
) {
    match r {
        Ok(m2) => (m2, Ok(Action::Continue)),
        Err(f) => (m, Err(f)),
    }
}

/// The state and action after `ins` runs on `m`, whose program counter has
/// already moved past `ins`.
pub open spec fn execute_spec(m: MachineModel, ins: Instruction) -> (
    MachineModel,
    Result<Action, Fault>,
) {
    match ins {
        Instruction::ConditionalMove { a, b, c } => (cmov_result(m, a, b, c), Ok(Action::Continue)),
        Instruction::SegmentLoad { a, b, c } => continue_with(m, seg_load_result(m, a, b, c)),
        Instruction::SegmentStore { a, b, c } => continue_with(m, seg_store_result(m, a, b, c)),
        Instruction::Add { a, b, c } => (add_result(m, a, b, c), Ok(Action::Continue)),
        Instruction::Multiply { a, b, c } => (mul_result(m, a, b, c), Ok(Action::Continue)),
        Instruction::Divide { a, b, c } => continue_with(m, div_result(m, a, b, c)),
        Instruction::Nand { a, b, c } => (nand_result(m, a, b, c), Ok(Action::Continue)),
        Instruction::Halt => (m, Ok(Action::Halt)),
        Instruction::MapSegment { b, c } => continue_with(m, map_seg_result(m, b, c)),
        Instruction::UnmapSegment { c } => continue_with(m, unmap_seg_result(m, c)),
        Instruction::Output { c } => match output_result(m, c) {
            Ok(v) => (m, Ok(Action::Output(v))),
            Err(f) => (m, Err(f)),
        },
        Instruction::Input { c } => (m, Ok(Action::Input { register: c })),
        Instruction::LoadProgram { b, c } => continue_with(m, load_program_result(m, b, c)),
        Instruction::LoadValue { x, y } => (load_value_result(m, x, y), Ok(Action::Continue)),
        Instruction::Invalid { .. } => (m, Err(Fault::InvalidOpcode)),
    }
}

/// One step of the machine: fetch the word at the program counter in
/// segment 0, advance the counter, then execute the word.
pub open spec fn step_spec(m: MachineModel) -> (MachineModel, Result<Action, Fault>) {
    if m.pc >= m.table.seg(0).len() {
        (m, Err(Fault::ProgramCounterOutOfRange))
    } else {
        execute_spec(MachineModel { pc: m.pc + 1, ..m }, decode_spec(m.table.seg(0)[m.pc as int]))
    }
}

/// At most `n` steps from `m`, stopping after the first step whose action is
/// not `Continue` or that faults.
pub open spec fn run_spec(m: MachineModel, n: nat) -> (MachineModel, Result<Action, Fault>)
    decreases n,
{
    if n == 0 {
        (m, Ok(Action::Continue))
    } else {
        let (m1, r) = step_spec(m);
        if r == Ok::<Action, Fault>(Action::Continue) {
            run_spec(m1, (n - 1) as nat)
        } else {
            (m1, r)
        }
    }
}

/// Runs one instruction and reports what it asks of the world: an output
/// byte, an input byte, or the end of the run.
pub fn disassemble(um: &mut UniversalMachine) -> (r: Result<Action, Fault>)
    requires
        old(um).wf(),
    ensures
        final(um).wf(),
        (final(um)@, r) == step_spec(old(um)@),
{
    let pc = um.program_counter;
    if pc >= um.segments.program_len() {
        return Err(Fault::ProgramCounterOutOfRange);
    }
    let word = um.segments.program_word(pc);
    um.program_counter = pc + 1;
    match decode(word) {
        Instruction::ConditionalMove { a, b, c } => {
            cmov(um, a, b, c);
            Ok(Action::Continue)
        },
        Instruction::SegmentLoad { a, b, c } => match seg_load(um, a, b, c) {
            Ok(()) => Ok(Action::Continue),
            Err(f) => Err(f),
        },
        Instruction::SegmentStore { a, b, c } => match seg_store(um, a, b, c) {
            Ok(()) => Ok(Action::Continue),
            Err(f) => Err(f),
        },
        Instruction::Add { a, b, c } => {
            instructions::add(um, a, b, c);
            Ok(Action::Continue)
        },
        Instruction::Multiply { a, b, c } => {
            instructions::mul(um, a, b, c);
            Ok(Action::Continue)
        },
        Instruction::Divide { a, b, c } => match div(um, a, b, c) {
            Ok(()) => Ok(Action::Continue),
            Err(f) => Err(f),
        },
        Instruction::Nand { a, b, c } => {
            nand(um, a, b, c);
            Ok(Action::Continue)
        },
        Instruction::Halt => Ok(Action::Halt),
        Instruction::MapSegment { b, c } => match map_seg(um, b, c) {
            Ok(()) => Ok(Action::Continue),
            Err(f) => Err(f),
        },
        Instruction::UnmapSegment { c } => match unmap_seg(um, c) {
            Ok(()) => Ok(Action::Continue),
            Err(f) => Err(f),
        },
        Instruction::Output { c } => match output(um, c) {
            Ok(v) => Ok(Action::Output(v)),
            Err(f) => Err(f),
        },
        Instruction::Input { c } => Ok(Action::Input { register: c }),
        Instruction::LoadProgram { b, c } => match load_program(um, b, c) {
            Ok(()) => Ok(Action::Continue),
            Err(f) => Err(f),
        },
        Instruction::LoadValue { .. } => {
            load_value(um, word);
            Ok(Action::Continue)
        },
        Instruction::Invalid { .. } => Err(Fault::InvalidOpcode),
    }
}

/// Runs at most `max_steps` instructions, stopping at the first one whose
/// action is not `Continue` or that faults, and reports that action;
/// `Continue` when the budget ran out.
pub fn launch(um: &mut UniversalMachine, max_steps: u64) -> (r: Result<Action, Fault>)
    requires
        old(um).wf(),
    ensures
        final(um).wf(),
        (final(um)@, r) == run_spec(old(um)@, max_steps as nat),
{
    let mut left = max_steps;
    while left > 0
        invariant
            um.wf(),
            run_spec(old(um)@, max_steps as nat) == run_spec(um@, left as nat),
        decreases left,
    {
        let ghost before = um@;
        let r = disassemble(um);
        proof {
            assert(run_spec(before, left as nat) == {
                let (m1, r1) = step_spec(before);
                if r1 == Ok::<Action, Fault>(Action::Continue) {
                    run_spec(m1, (left - 1) as nat)
                } else {
                    (m1, r1)
                }
            });
        }
        match r {
            Ok(Action::Continue) => {
                left = left - 1;
            },
            _ => {
                return r;
            },
        }
    }
    Ok(Action::Continue)
}

} // verus!
