//! The effect of each instruction on the machine state. Register operands
//! are indices 0 to 7; arithmetic wraps modulo 2^32.
use crate::bitpack::field_value;
use crate::disassembler::{get, Field};
use crate::fault::Fault;
use crate::um::{MachineModel, UniversalMachine};
use vstd::arithmetic::power2::lemma2_to64;
use vstd::prelude::*;

verus! {

/// `r` reports the outcome `expected` of an instruction on a machine that
/// was `before` and is now `after`: on a fault the machine is unchanged.
pub open spec fn machine_outcome(
    before: MachineModel,
    after: MachineModel,
    r: Result<(), Fault>,
    expected: Result<MachineModel, Fault>,
) -> bool {
    match expected {
        Ok(m) => r is Ok && after == m,
        Err(f) => r == Err::<(), Fault>(f) && after == before,
    }
}

/// Conditional move: `r[a] := r[b]` when `r[c] != 0`.
pub open spec fn cmov_result(m: MachineModel, a: u32, b: u32, c: u32) -> MachineModel {
    if m.reg(c) != 0 {
        m.set_reg(a, m.reg(b))
    } else {
        m
    }
}

/// Segment load: `r[a] := segment[r[b]][r[c]]`.
pub open spec fn seg_load_result(m: MachineModel, a: u32, b: u32, c: u32) -> Result<
    MachineModel,
    Fault,
> {
    match m.table.read(m.reg(b), m.reg(c)) {
        Ok(v) => Ok(m.set_reg(a, v)),
        Err(f) => Err(f),
    }
}

/// Segment store: `segment[r[a]][r[b]] := r[c]`.
pub open spec fn seg_store_result(m: MachineModel, a: u32, b: u32, c: u32) -> Result<
    MachineModel,
    Fault,
> {
    match m.table.write(m.reg(a), m.reg(b), m.reg(c)) {
        Ok(t) => Ok(MachineModel { table: t, ..m }),
        Err(f) => Err(f),
    }
}

/// Addition: `r[a] := (r[b] + r[c]) mod 2^32`.
pub open spec fn add_result(m: MachineModel, a: u32, b: u32, c: u32) -> MachineModel {
    m.set_reg(a, ((m.reg(b) + m.reg(c)) % 0x1_0000_0000) as u32)
}

/// Multiplication: `r[a] := (r[b] * r[c]) mod 2^32`.
pub open spec fn mul_result(m: MachineModel, a: u32, b: u32, c: u32) -> MachineModel {
    m.set_reg(a, ((m.reg(b) * m.reg(c)) % 0x1_0000_0000) as u32)
}

/// Division: `r[a] := floor(r[b] / r[c])`; a zero divisor faults.
pub open spec fn div_result(m: MachineModel, a: u32, b: u32, c: u32) -> Result<MachineModel, Fault> {
    if m.reg(c) == 0 {
        Err(Fault::DivideByZero)
    } else {
        Ok(m.set_reg(a, (m.reg(b) / m.reg(c)) as u32))
    }
}

/// Bitwise not-and: `r[a] := !(r[b] & r[c])`.
pub open spec fn nand_result(m: MachineModel, a: u32, b: u32, c: u32) -> MachineModel {
    m.set_reg(a, !(m.reg(b) & m.reg(c)))
}

/// Map segment: `r[b] :=` the identifier of a new zeroed segment of `r[c]`
/// words.
pub open spec fn map_seg_result(m: MachineModel, b: u32, c: u32) -> Result<MachineModel, Fault> {
    match m.table.allocate(m.reg(c) as nat) {
        Ok((t, id)) => Ok(MachineModel { table: t, ..m }.set_reg(b, id)),
        Err(f) => Err(f),
    }
}

/// Unmap segment: frees segment `r[c]`.
pub open spec fn unmap_seg_result(m: MachineModel, c: u32) -> Result<MachineModel, Fault> {
    match m.table.free(m.reg(c)) {
        Ok(t) => Ok(MachineModel { table: t, ..m }),
        Err(f) => Err(f),
    }
}

/// Output: the byte `r[c]`; a value above 255 faults.
pub open spec fn output_result(m: MachineModel, c: u32) -> Result<u8, Fault> {
    if m.reg(c) > 255 {
        Err(Fault::OutputOutOfRange)
    } else {
        Ok(m.reg(c) as u8)
    }
}

/// Input: `r[c] :=` the byte read, or all ones when the input is exhausted.
pub open spec fn input_result(m: MachineModel, c: u32, byte: Option<u8>) -> MachineModel {
    match byte {
        Some(v) => m.set_reg(c, v as u32),
        None => m.set_reg(c, 0xFFFF_FFFF),
    }
}

/// Load program: segment 0 becomes a copy of segment `r[b]` (unchanged when
/// `r[b]` is 0) and the program counter becomes `r[c]`.
pub open spec fn load_program_result(m: MachineModel, b: u32, c: u32) -> Result<
    MachineModel,
    Fault,
> {
    match m.table.replace_program(m.reg(b)) {
        Ok(t) => Ok(MachineModel { table: t, pc: m.reg(c) as nat, ..m }),
        Err(f) => Err(f),
    }
}

/// Load value: `r[x] := y`.
pub open spec fn load_value_result(m: MachineModel, x: u32, y: u32) -> MachineModel {
    m.set_reg(x, y)
}

/// If `r[c] != 0`, then `r[a] := r[b]`.
pub fn cmov(um: &mut UniversalMachine, a: u32, b: u32, c: u32)
    requires
        old(um).wf(),
        a < 8,
        b < 8,
        c < 8,
    ensures
        final(um).wf(),
        final(um)@ == cmov_result(old(um)@, a, b, c),
{
    if um.r[c as usize] != 0 {
        let v = um.r[b as usize];
        um.r.set(a as usize, v);
    }
}

/// `r[a] := (r[b] + r[c]) mod 2^32`.
pub fn add(um: &mut UniversalMachine, a: u32, b: u32, c: u32)
    requires
        old(um).wf(),
        a < 8,
        b < 8,
        c < 8,
    ensures
        final(um).wf(),
        final(um)@ == add_result(old(um)@, a, b, c),
{
    let v = um.r[b as usize].wrapping_add(um.r[c as usize]);
    um.r.set(a as usize, v);
}

/// `r[a] := (r[b] * r[c]) mod 2^32`.
pub fn mul(um: &mut UniversalMachine, a: u32, b: u32, c: u32)
    requires
        old(um).wf(),
        a < 8,
        b < 8,
        c < 8,
    ensures
        final(um).wf(),
        final(um)@ == mul_result(old(um)@, a, b, c),
{
    let v = um.r[b as usize].wrapping_mul(um.r[c as usize]);
    um.r.set(a as usize, v);
}

/// `r[a] := floor(r[b] / r[c])`; faults when `r[c]` is 0.
pub fn div(um: &mut UniversalMachine, a: u32, b: u32, c: u32) -> (r: Result<(), Fault>)
    requires
        old(um).wf(),
        a < 8,
        b < 8,
        c < 8,
    ensures
        final(um).wf(),
        machine_outcome(old(um)@, final(um)@, r, div_result(old(um)@, a, b, c)),
{
    let divisor = um.r[c as usize];
    if divisor == 0 {
        return Err(Fault::DivideByZero);
    }
    let v = um.r[b as usize] / divisor;
    um.r.set(a as usize, v);
    Ok(())
}

/// `r[a] := !(r[b] & r[c])`.
pub fn nand(um: &mut UniversalMachine, a: u32, b: u32, c: u32)
    requires
        old(um).wf(),
        a < 8,
        b < 8,
        c < 8,
    ensures
        final(um).wf(),
        final(um)@ == nand_result(old(um)@, a, b, c),
{
    let v = !(um.r[b as usize] & um.r[c as usize]);
    um.r.set(a as usize, v);
}

/// Load `Y` into `r[X]`, where `X` is the three bits below the operation
/// code of `word` and `Y` the remaining 25 bits.
pub fn load_value(um: &mut UniversalMachine, word: u32)
    requires
        old(um).wf(),
    ensures
        final(um).wf(),
        final(um)@ == load_value_result(
            old(um)@,
            field_value(word as nat, 3, 25) as u32,
            field_value(word as nat, 25, 0) as u32,
        ),
{
    proof {
        lemma2_to64();
    }
    let x = get(&Field::rl(), word);
    let y = get(&Field::vl(), word);
    um.r.set(x as usize, y);
}

/// `r[a] := segment[r[b]][r[c]]`; faults on an unmapped segment or an
/// offset past its end.
pub fn seg_load(um: &mut UniversalMachine, a: u32, b: u32, c: u32) -> (r: Result<(), Fault>)
    requires
        old(um).wf(),
        a < 8,
        b < 8,
        c < 8,
    ensures
        final(um).wf(),
        machine_outcome(old(um)@, final(um)@, r, seg_load_result(old(um)@, a, b, c)),
{
    let id = um.r[b as usize];
    let offset = um.r[c as usize];
    match um.segments.read(id, offset) {
        Ok(v) => {
            um.r.set(a as usize, v);
            Ok(())
        },
        Err(f) => Err(f),
    }
}

/// `segment[r[a]][r[b]] := r[c]`; faults on an unmapped segment or an
/// offset past its end.
pub fn seg_store(um: &mut UniversalMachine, a: u32, b: u32, c: u32) -> (r: Result<(), Fault>)
    requires
        old(um).wf(),
        a < 8,
        b < 8,
        c < 8,
    ensures
        final(um).wf(),
        machine_outcome(old(um)@, final(um)@, r, seg_store_result(old(um)@, a, b, c)),
{
    let id = um.r[a as usize];
    let offset = um.r[b as usize];
    let value = um.r[c as usize];
    um.segments.write(id, offset, value)
}

/// Maps a new zeroed segment of `r[c]` words and stores its identifier in
/// `r[b]`. The most recently unmapped identifier is reused first.
pub fn map_seg(um: &mut UniversalMachine, b: u32, c: u32) -> (r: Result<(), Fault>)
    requires
        old(um).wf(),
        b < 8,
        c < 8,
    ensures
        final(um).wf(),
        machine_outcome(old(um)@, final(um)@, r, map_seg_result(old(um)@, b, c)),
{
    let length = um.r[c as usize];
    match um.segments.allocate(length) {
        Ok(id) => {
            um.r.set(b as usize, id);
            Ok(())
        },
        Err(f) => Err(f),
    }
}

/// Unmaps segment `r[c]`; a later Map Segment may reuse its identifier.
/// Faults on segment 0 and on an identifier that is not mapped.
pub fn unmap_seg(um: &mut UniversalMachine, c: u32) -> (r: Result<(), Fault>)
    requires
        old(um).wf(),
        c < 8,
    ensures
        final(um).wf(),
        machine_outcome(old(um)@, final(um)@, r, unmap_seg_result(old(um)@, c)),
{
    let id = um.r[c as usize];
    um.segments.free(id)
}

/// The byte to emit for `r[c]`; faults when `r[c]` exceeds 255.
pub fn output(um: &mut UniversalMachine, c: u32) -> (r: Result<u8, Fault>)
    requires
        old(um).wf(),
        c < 8,
    ensures
        final(um)@ == old(um)@,
        r == output_result(old(um)@, c),
{
    let v = um.r[c as usize];
    if v > 255 {
        Err(Fault::OutputOutOfRange)
    } else {
        Ok(v as u8)
    }
}

/// `r[c] :=` the byte read, or `0xFFFF_FFFF` when `byte` is `None`, the end
/// of the input.
pub fn input(um: &mut UniversalMachine, c: u32, byte: Option<u8>)
    requires
        old(um).wf(),
        c < 8,
    ensures
        final(um).wf(),
        final(um)@ == input_result(old(um)@, c, byte),
{
    let v: u32 = match byte {
        Some(x) => x as u32,
        None => 0xFFFF_FFFF,
    };
    um.r.set(c as usize, v);
}

/// Segment `r[b]` is duplicated into segment 0 and the program counter set
/// to `r[c]`. When `r[b]` is 0 nothing is copied: this is a jump. Faults when
/// `r[b]` names no mapped segment.
pub fn load_program(um: &mut UniversalMachine, b: u32, c: u32) -> (r: Result<(), Fault>)
    requires
        old(um).wf(),
        b < 8,
        c < 8,
    ensures
        final(um).wf(),
        machine_outcome(old(um)@, final(um)@, r, load_program_result(old(um)@, b, c)),
{
    let id = um.r[b as usize];
    match um.segments.replace_program(id) {
        Ok(()) => {
            um.program_counter = um.r[c as usize] as usize;
            Ok(())
        },
        Err(f) => Err(f),
    }
}

} // verus!
