use rum::bitpack::{exp_base2, fitsu, getu, newu};
use rum::disassembler::{decode, disassemble, get, launch, op, Action, Field, Instruction};
use rum::fault::Fault;
use rum::instructions;
use rum::rumload::words_from_bytes;
use rum::segment::SegmentTable;
use rum::um::UniversalMachine;

fn three(opcode: u32, a: u32, b: u32, c: u32) -> u32 {
    (opcode << 28) | (a << 6) | (b << 3) | c
}

fn load_value_word(x: u32, y: u32) -> u32 {
    (13 << 28) | (x << 25) | y
}

#[test]
fn exp_base2_values() {
    assert_eq!(exp_base2(0), 1);
    assert_eq!(exp_base2(10), 1024);
    assert_eq!(exp_base2(63), 1u64 << 63);
}

#[test]
fn fitsu_bounds() {
    assert!(fitsu(15, 4));
    assert!(!fitsu(16, 4));
    assert!(fitsu(0, 0));
    assert!(!fitsu(1, 0));
    assert!(fitsu(u64::MAX, 64));
}

#[test]
fn getu_extracts_field() {
    assert_eq!(getu(0xABCD, 8, 4), 0xBC);
    assert_eq!(getu(0xABCD, 0, 4), 0);
    assert_eq!(getu(u64::MAX, 64, 0), u64::MAX);
    assert_eq!(getu(0x8000_0000_0000_0000, 1, 63), 1);
}

#[test]
fn newu_replaces_field_and_keeps_the_rest() {
    assert_eq!(newu(0xFFFF, 4, 4, 0x3), Some(0xFF3F));
    assert_eq!(newu(0, 8, 8, 0xAB), Some(0xAB00));
    assert_eq!(newu(0x1234, 0, 4, 0), Some(0x1234));
    assert_eq!(newu(7, 64, 0, 9), Some(9));
}

#[test]
fn newu_rejects_value_too_wide() {
    assert_eq!(newu(0xFFFF, 4, 4, 16), None);
    assert_eq!(newu(0, 0, 3, 1), None);
}

#[test]
fn field_get_and_opcode() {
    let word = three(3, 5, 6, 7);
    assert_eq!(op(word), 3);
    assert_eq!(get(&Field::ra(), word), 5);
    assert_eq!(get(&Field::rb(), word), 6);
    assert_eq!(get(&Field::rc(), word), 7);
    let lv = load_value_word(4, 0x1AB_CDEF);
    assert_eq!(get(&Field::rl(), lv), 4);
    assert_eq!(get(&Field::vl(), lv), 0x1AB_CDEF);
    assert_eq!(get(&Field::op(), lv), 13);
}

#[test]
fn decode_every_layout() {
    assert_eq!(decode(three(0, 1, 2, 3)), Instruction::ConditionalMove { a: 1, b: 2, c: 3 });
    assert_eq!(decode(three(5, 7, 0, 4)), Instruction::Divide { a: 7, b: 0, c: 4 });
    assert_eq!(decode(three(7, 1, 1, 1)), Instruction::Halt);
    assert_eq!(decode(three(8, 0, 2, 1)), Instruction::MapSegment { b: 2, c: 1 });
    assert_eq!(decode(three(12, 0, 4, 5)), Instruction::LoadProgram { b: 4, c: 5 });
    assert_eq!(decode(load_value_word(6, 0x1FF_FFFF)), Instruction::LoadValue { x: 6, y: 0x1FF_FFFF });
    assert_eq!(decode(three(14, 0, 0, 0)), Instruction::Invalid { opcode: 14 });
    assert_eq!(decode(0xFFFF_FFFF), Instruction::Invalid { opcode: 15 });
}

#[test]
fn load_value_every_register_reads_back() {
    for x in 0..8u32 {
        for y in [0u32, 1, 0x100_0000, 0x1FF_FFFF] {
            let mut um = UniversalMachine::new();
            instructions::load_value(&mut um, load_value_word(x, y));
            assert_eq!(um.r[x as usize], y);
        }
    }
}

#[test]
fn multiply_truncates_product() {
    let mut um = UniversalMachine::new();
    um.r[1] = 0x1FF_FFFF;
    um.r[2] = 0x1FF_FFFF;
    instructions::mul(&mut um, 3, 1, 2);
    let full: u64 = 0x1FF_FFFFu64 * 0x1FF_FFFFu64;
    assert_eq!(um.r[3] as u64, full & 0xFFFF_FFFF);
}

#[test]
fn divide_by_zero_faults_even_with_zero_dividend() {
    let mut um = UniversalMachine::new();
    assert_eq!(instructions::div(&mut um, 3, 1, 2), Err(Fault::DivideByZero));
    assert_eq!(um.r[3], 0);
    um.r[1] = 10;
    assert_eq!(instructions::div(&mut um, 3, 1, 2), Err(Fault::DivideByZero));
}

#[test]
fn divide_floors() {
    let mut um = UniversalMachine::new();
    um.r[1] = 17;
    um.r[2] = 5;
    assert_eq!(instructions::div(&mut um, 3, 1, 2), Ok(()));
    assert_eq!(um.r[3], 3);
}

#[test]
fn nand_of_registers() {
    let mut um = UniversalMachine::new();
    um.r[1] = 0xF0F0_F0F0;
    um.r[2] = 0xFF00_FF00;
    instructions::nand(&mut um, 3, 1, 2);
    assert_eq!(um.r[3], 0x0FFF_0FFF);
}

#[test]
fn conditional_move_copies_current_value() {
    let mut um = UniversalMachine::new();
    um.r[1] = 1;
    um.r[2] = 5;
    instructions::cmov(&mut um, 3, 2, 1);
    assert_eq!(um.r[3], 5);
    instructions::load_value(&mut um, load_value_word(2, 9));
    instructions::cmov(&mut um, 3, 2, 1);
    assert_eq!(um.r[3], 9);
    um.r[1] = 0;
    um.r[2] = 11;
    instructions::cmov(&mut um, 3, 2, 1);
    assert_eq!(um.r[3], 9);
}

#[test]
fn segment_lifecycle_reuses_and_zeroes() {
    let mut t = SegmentTable::new(vec![1, 2, 3]);
    let id = t.allocate(4).unwrap();
    assert_ne!(id, 0);
    for o in 0..4 {
        assert_eq!(t.read(id, o), Ok(0));
    }
    assert_eq!(t.write(id, 2, 77), Ok(()));
    assert_eq!(t.read(id, 2), Ok(77));
    assert_eq!(t.free(id), Ok(()));
    let again = t.allocate(3).unwrap();
    assert_eq!(again, id);
    for o in 0..3 {
        assert_eq!(t.read(again, o), Ok(0));
    }
    assert_eq!(t.read(again, 3), Err(Fault::OffsetOutOfRange));
}

#[test]
fn segment_faults() {
    let mut t = SegmentTable::new(vec![]);
    assert_eq!(t.free(0), Err(Fault::UnmapProgramSegment));
    assert_eq!(t.free(5), Err(Fault::UnmapUnmappedSegment));
    assert_eq!(t.read(1, 0), Err(Fault::UnmappedSegment));
    let id = t.allocate(1).unwrap();
    assert_eq!(t.free(id), Ok(()));
    assert_eq!(t.free(id), Err(Fault::UnmapUnmappedSegment));
    assert_eq!(t.read(id, 0), Err(Fault::UnmappedSegment));
    assert_eq!(t.write(id, 0, 1), Err(Fault::UnmappedSegment));
    assert_eq!(t.replace_program(id), Err(Fault::UnmappedSegment));
}

#[test]
fn allocation_uses_last_freed_first() {
    let mut t = SegmentTable::new(vec![]);
    let a = t.allocate(1).unwrap();
    let b = t.allocate(1).unwrap();
    assert_eq!((a, b), (1, 2));
    t.free(a).unwrap();
    t.free(b).unwrap();
    assert_eq!(t.allocate(1), Ok(b));
    assert_eq!(t.allocate(1), Ok(a));
    assert_eq!(t.allocate(1), Ok(3));
}

#[test]
fn unmap_segment_instruction_faults() {
    let mut um = UniversalMachine::new();
    assert_eq!(instructions::unmap_seg(&mut um, 1), Err(Fault::UnmapProgramSegment));
    um.r[1] = 4;
    assert_eq!(instructions::unmap_seg(&mut um, 1), Err(Fault::UnmapUnmappedSegment));
    assert_eq!(instructions::seg_load(&mut um, 0, 1, 2), Err(Fault::UnmappedSegment));
    assert_eq!(instructions::seg_store(&mut um, 1, 2, 3), Err(Fault::UnmappedSegment));
}

#[test]
fn load_program_zero_is_a_jump() {
    let mut um = UniversalMachine::with_program(vec![10, 20, 30]);
    um.r[1] = 0;
    um.r[2] = 2;
    assert_eq!(instructions::load_program(&mut um, 1, 2), Ok(()));
    assert_eq!(um.program_counter, 2);
    assert_eq!(um.segments.program_len(), 3);
    assert_eq!(um.segments.read(0, 0), Ok(10));
    assert_eq!(um.segments.read(0, 2), Ok(30));
}

#[test]
fn load_program_copies_segment() {
    let mut um = UniversalMachine::with_program(vec![10, 20, 30]);
    um.r[3] = 2;
    instructions::map_seg(&mut um, 1, 3).unwrap();
    um.r[4] = 99;
    instructions::seg_store(&mut um, 1, 0, 4).unwrap();
    um.r[5] = 1;
    assert_eq!(instructions::load_program(&mut um, 1, 5), Ok(()));
    assert_eq!(um.program_counter, 1);
    assert_eq!(um.segments.program_len(), 2);
    assert_eq!(um.segments.read(0, 0), Ok(99));
    assert_eq!(um.segments.read(0, 1), Ok(0));
    assert_eq!(um.segments.read(um.r[1], 0), Ok(99));
}

#[test]
fn output_range() {
    let mut um = UniversalMachine::new();
    um.r[1] = 255;
    assert_eq!(instructions::output(&mut um, 1), Ok(255));
    um.r[1] = 65;
    assert_eq!(instructions::output(&mut um, 1), Ok(65));
    um.r[1] = 256;
    assert_eq!(instructions::output(&mut um, 1), Err(Fault::OutputOutOfRange));
    um.r[1] = u32::MAX;
    assert_eq!(instructions::output(&mut um, 1), Err(Fault::OutputOutOfRange));
}

#[test]
fn input_byte_and_end_of_stream() {
    let mut um = UniversalMachine::new();
    instructions::input(&mut um, 4, Some(200));
    assert_eq!(um.r[4], 200);
    instructions::input(&mut um, 4, None);
    assert_eq!(um.r[4], 0xFFFF_FFFF);
}

#[test]
fn end_to_end_segment_program() {
    let program = vec![
        load_value_word(1, 3),
        three(8, 0, 2, 1),
        three(2, 2, 0, 1),
        three(1, 3, 2, 0),
        three(7, 0, 0, 0),
    ];
    let mut um = UniversalMachine::with_program(program);
    assert_eq!(launch(&mut um, 100), Ok(Action::Halt));
    assert_eq!(um.r[3], 3);
    assert_eq!(um.program_counter, 5);
}

#[test]
fn step_reports_io_actions() {
    let program = vec![
        load_value_word(1, 65),
        three(10, 0, 0, 1),
        three(11, 0, 0, 2),
        three(7, 0, 0, 0),
    ];
    let mut um = UniversalMachine::with_program(program);
    assert_eq!(launch(&mut um, 100), Ok(Action::Output(65)));
    assert_eq!(disassemble(&mut um), Ok(Action::Input { register: 2 }));
    instructions::input(&mut um, 2, None);
    assert_eq!(um.r[2], 0xFFFF_FFFF);
    assert_eq!(disassemble(&mut um), Ok(Action::Halt));
}

#[test]
fn step_faults() {
    let mut empty = UniversalMachine::new();
    assert_eq!(disassemble(&mut empty), Err(Fault::ProgramCounterOutOfRange));
    let mut bad = UniversalMachine::with_program(vec![three(14, 0, 0, 0)]);
    assert_eq!(disassemble(&mut bad), Err(Fault::InvalidOpcode));
    let mut div = UniversalMachine::with_program(vec![three(5, 0, 0, 0)]);
    assert_eq!(launch(&mut div, 10), Err(Fault::DivideByZero));
    let mut out = UniversalMachine::with_program(vec![load_value_word(1, 256), three(10, 0, 0, 1)]);
    assert_eq!(launch(&mut out, 10), Err(Fault::OutputOutOfRange));
}

#[test]
fn launch_stops_when_budget_runs_out() {
    let program = vec![three(3, 1, 1, 1), three(3, 1, 1, 1), three(7, 0, 0, 0)];
    let mut um = UniversalMachine::with_program(program);
    assert_eq!(launch(&mut um, 2), Ok(Action::Continue));
    assert_eq!(um.program_counter, 2);
    assert_eq!(launch(&mut um, 0), Ok(Action::Continue));
    assert_eq!(launch(&mut um, 1), Ok(Action::Halt));
}

#[test]
fn load_program_loop_runs_until_halt() {
    // r1 := 3; jump to offset r1, past an invalid word; halt.
    let program = vec![load_value_word(1, 3), three(12, 0, 0, 1), three(14, 0, 0, 0), three(7, 0, 0, 0)];
    let mut um = UniversalMachine::with_program(program);
    assert_eq!(launch(&mut um, 10), Ok(Action::Halt));
}

#[test]
fn image_words_are_big_endian() {
    let words = words_from_bytes(&[0x12, 0x34, 0x56, 0x78, 0x00, 0x00, 0x00, 0xFF]).unwrap();
    assert_eq!(words, vec![0x1234_5678, 0xFF]);
    assert_eq!(words_from_bytes(&[]), Some(vec![]));
}

#[test]
fn image_length_must_be_multiple_of_four() {
    assert_eq!(words_from_bytes(&[1, 2, 3, 4, 5]), None);
    assert_eq!(words_from_bytes(&[1]), None);
}

#[test]
fn bare_machine_layout() {
    let m = rum::rum::UniversalMachine::new();
    assert!(m.registers.is_empty());
    assert_eq!(m.segments.len(), 1);
    assert!(m.segments[0].is_empty());
}

#[test]
fn new_machine_is_zeroed() {
    let um = UniversalMachine::new();
    assert_eq!(um.r, vec![0; 8]);
    assert_eq!(um.program_counter, 0);
    assert_eq!(um.segments.program_len(), 0);
}
