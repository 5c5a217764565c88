//! Laws of the machine, stated over the models and proved.
use crate::bitpack::field_value;
use crate::disassembler::{decode_spec, execute_spec, step_spec, Action, Instruction};
use crate::fault::Fault;
use crate::instructions::{
    cmov_result,
    div_result,
    input_result,
    load_program_result,
    output_result,
};
use crate::segment::SegmentsModel;
use crate::um::MachineModel;
use vstd::arithmetic::power2::lemma2_to64;
use vstd::prelude::*;

verus! {

/// The word that loads the 25-bit immediate `y` into register `x`.
pub open spec fn load_value_word(x: u32, y: u32) -> u32 {
    (13u32 << 28u32) | (x << 25u32) | y
}

/// A Load Value instruction followed by a read of its register gives back
/// exactly the immediate, for every register and every 25-bit value; the
/// other registers keep their values.
pub proof fn lemma_load_value_reads_back(m: MachineModel, x: u32, y: u32)
    requires
        m.wf(),
        x < 8,
        y < 0x200_0000,
        m.pc < m.table.seg(0).len(),
        m.table.seg(0)[m.pc as int] == load_value_word(x, y),
    ensures
        decode_spec(load_value_word(x, y)) == (Instruction::LoadValue { x, y }),
        step_spec(m).1 == Ok::<Action, Fault>(Action::Continue),
        step_spec(m).0.reg(x) == y,
        forall|i: u32| i < 8 && i != x ==> #[trigger] step_spec(m).0.reg(i) == m.reg(i),
{
    lemma2_to64();
    let w = load_value_word(x, y);
    assert(w / 0x1000_0000 % 16 == 13) by (bit_vector)
        requires
            w == (13u32 << 28u32) | (x << 25u32) | y,
            x < 8,
            y < 0x200_0000,
    ;
    assert(w / 0x200_0000 % 8 == x) by (bit_vector)
        requires
            w == (13u32 << 28u32) | (x << 25u32) | y,
            x < 8,
            y < 0x200_0000,
    ;
    assert(w / 1 % 0x200_0000 == y) by (bit_vector)
        requires
            w == (13u32 << 28u32) | (x << 25u32) | y,
            x < 8,
            y < 0x200_0000,
    ;
    assert(field_value(w as nat, 4, 28) == 13);
    assert(field_value(w as nat, 3, 25) == x);
    assert(field_value(w as nat, 25, 0) == y);
}

/// Division by a zero register faults whatever the dividend, zero included.
pub proof fn lemma_divide_by_zero_faults(m: MachineModel, a: u32, b: u32, c: u32)
    requires
        m.wf(),
        a < 8,
        b < 8,
        c < 8,
        m.reg(c) == 0,
    ensures
        div_result(m, a, b, c) == Err::<MachineModel, Fault>(Fault::DivideByZero),
        execute_spec(m, Instruction::Divide { a, b, c }).1 == Err::<Action, Fault>(
            Fault::DivideByZero,
        ),
{
}

/// Conditional Move leaves its destination alone when the condition
/// register is 0 and otherwise copies the source register's current value;
/// no other register changes.
pub proof fn lemma_conditional_move(m: MachineModel, a: u32, b: u32, c: u32)
    requires
        m.wf(),
        a < 8,
        b < 8,
        c < 8,
    ensures
        m.reg(c) == 0 ==> cmov_result(m, a, b, c) == m,
        m.reg(c) != 0 ==> cmov_result(m, a, b, c).reg(a) == m.reg(b),
        forall|i: u32| i < 8 && i != a ==> #[trigger] cmov_result(m, a, b, c).reg(i) == m.reg(i),
        cmov_result(m, a, b, c).table == m.table,
        cmov_result(m, a, b, c).pc == m.pc,
{
}

/// Segment lifecycle. An allocation of `n` words hands out an identifier
/// other than 0 whose offsets below `n` all read 0; a write then a read of
/// one offset gives back the written value; after a free, the next
/// allocation hands the same identifier out again, zeroed whatever it held.
/// (An allocation succeeds unless all 2^32 identifiers are live.)
pub proof fn lemma_segment_lifecycle(t: SegmentsModel, n: u32, offset: u32, v: u32, n2: u32)
    requires
        t.wf(),
        t.free.len() > 0 || t.segs.len() < 0x1_0000_0000,
    ensures
        t.allocate(n as nat) is Ok,
        ({
            let (t1, id) = t.allocate(n as nat).unwrap();
            &&& id != 0
            &&& t1.wf()
            &&& forall|o: u32| o < n ==> #[trigger] t1.read(id, o) == Ok::<u32, Fault>(0)
            &&& offset < n ==> {
                &&& t1.write(id, offset, v) is Ok
                &&& t1.write(id, offset, v).unwrap().read(id, offset) == Ok::<u32, Fault>(v)
            }
            &&& t1.free(id) is Ok
            &&& {
                let t2 = t1.free(id).unwrap();
                &&& t2.wf()
                &&& t2.allocate(n2 as nat) is Ok
                &&& t2.allocate(n2 as nat).unwrap().1 == id
                &&& forall|o: u32|
                    o < n2 ==> #[trigger] t2.allocate(n2 as nat).unwrap().0.read(id, o) == Ok::<
                        u32,
                        Fault,
                    >(0)
            }
        }),
{
    let (t1, id) = t.allocate(n as nat).unwrap();
    lemma_allocate_wf(t, n as nat);
    lemma_free_wf(t1, id);
    let t2 = t1.free(id).unwrap();
    assert(t2.free.last() == id);
}

/// Allocation keeps the table consistent and hands out an identifier that
/// was not mapped before and is mapped afterwards.
pub proof fn lemma_allocate_wf(t: SegmentsModel, n: nat)
    requires
        t.wf(),
        t.allocate(n) is Ok,
    ensures
        ({
            let (t1, id) = t.allocate(n).unwrap();
            &&& t1.wf()
            &&& id != 0
            &&& !t.is_mapped(id)
            &&& t1.is_mapped(id)
            &&& t1.seg(id) == crate::segment::zeros(n)
        }),
{
    let (t1, id) = t.allocate(n).unwrap();
    if t.free.len() > 0 {
        let last = t.free.len() - 1;
        assert(t.free[last] == id);
        assert forall|k: int| 0 <= k < t1.free.len() implies {
            &&& 0 < #[trigger] t1.free[k] < t1.segs.len()
            &&& !t1.mapped[t1.free[k] as int]
        } by {
            assert(t1.free[k] == t.free[k]);
            assert(t.free[k] != t.free[last]);
        }
    }
}

/// Freeing keeps the table consistent.
pub proof fn lemma_free_wf(t: SegmentsModel, id: u32)
    requires
        t.wf(),
        t.free(id) is Ok,
    ensures
        t.free(id).unwrap().wf(),
        !t.free(id).unwrap().is_mapped(id),
{
    let t1 = t.free(id).unwrap();
    assert forall|k: int| 0 <= k < t1.free.len() implies {
        &&& 0 < #[trigger] t1.free[k] < t1.segs.len()
        &&& !t1.mapped[t1.free[k] as int]
    } by {
        if k < t.free.len() {
            assert(t1.free[k] == t.free[k]);
        }
    }
}

/// Load Program from register value 0 keeps segment 0 and the rest of the
/// table as they are and only sets the program counter to `r[c]`.
pub proof fn lemma_load_program_zero_is_jump(m: MachineModel, b: u32, c: u32)
    requires
        m.wf(),
        b < 8,
        c < 8,
        m.reg(b) == 0,
    ensures
        load_program_result(m, b, c) == Ok::<MachineModel, Fault>(
            MachineModel { pc: m.reg(c) as nat, ..m },
        ),
{
}

/// Output faults for every value above 255 and emits the value itself, its
/// low byte, for every value up to 255; the machine state is unchanged.
pub proof fn lemma_output_range(m: MachineModel, c: u32)
    requires
        m.wf(),
        c < 8,
    ensures
        m.reg(c) > 255 ==> output_result(m, c) == Err::<u8, Fault>(Fault::OutputOutOfRange),
        m.reg(c) <= 255 ==> output_result(m, c) == Ok::<u8, Fault>((m.reg(c) % 256) as u8),
        m.reg(c) <= 255 ==> execute_spec(m, Instruction::Output { c }) == (
            m,
            Ok::<Action, Fault>(Action::Output(m.reg(c) as u8)),
        ),
{
}

/// Input at the end of the input stream sets its register to all ones.
pub proof fn lemma_input_at_end(m: MachineModel, c: u32)
    requires
        m.wf(),
        c < 8,
    ensures
        input_result(m, c, None).reg(c) == 0xFFFF_FFFFu32,
{
}

} // verus!
