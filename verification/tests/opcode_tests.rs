//! Per-instruction behaviour, driven through the public `execute` entry.
use chip8::cpu::execute;
use chip8::inst::{decode, Fault, Instruction};
use chip8::state::State;

fn fresh() -> State {
    State::new()
}

#[test]
fn add_byte_wraps_modulo_256() {
    let mut s = fresh();
    s.reg.V[3] = 0xFF;
    assert!(execute(&mut s, Instruction::AddByte(3, 0x02), 0).is_ok());
    assert_eq!(s.reg.V[3], 0x01);
    // The flag register is not touched by the immediate form.
    assert_eq!(s.reg.V[0xF], 0);
}

#[test]
fn add_reg_sets_carry_iff_sum_exceeds_255() {
    let mut s = fresh();
    s.reg.V[0] = 200;
    s.reg.V[1] = 100;
    assert!(execute(&mut s, Instruction::AddReg(0, 1), 0).is_ok());
    assert_eq!(s.reg.V[0], 44); // low byte of 300
    assert_eq!(s.reg.V[0xF], 1);

    let mut s = fresh();
    s.reg.V[0] = 200;
    s.reg.V[1] = 55;
    assert!(execute(&mut s, Instruction::AddReg(0, 1), 0).is_ok());
    assert_eq!(s.reg.V[0], 255);
    assert_eq!(s.reg.V[0xF], 0);
}

#[test]
fn sub_flag_is_strict_greater_before_subtraction() {
    let mut s = fresh();
    s.reg.V[0] = 5;
    s.reg.V[1] = 5;
    assert!(execute(&mut s, Instruction::Sub(0, 1), 0).is_ok());
    assert_eq!(s.reg.V[0], 0);
    assert_eq!(s.reg.V[0xF], 0); // equal operands: no strict greater

    let mut s = fresh();
    s.reg.V[0] = 3;
    s.reg.V[1] = 5;
    assert!(execute(&mut s, Instruction::Sub(0, 1), 0).is_ok());
    assert_eq!(s.reg.V[0], 254); // 3 - 5 wrapped
    assert_eq!(s.reg.V[0xF], 0);

    let mut s = fresh();
    s.reg.V[0] = 9;
    s.reg.V[1] = 5;
    assert!(execute(&mut s, Instruction::Sub(0, 1), 0).is_ok());
    assert_eq!(s.reg.V[0], 4);
    assert_eq!(s.reg.V[0xF], 1);
}

#[test]
fn subn_flag_is_strict_greater_of_second_operand() {
    let mut s = fresh();
    s.reg.V[0] = 5;
    s.reg.V[1] = 9;
    assert!(execute(&mut s, Instruction::Subn(0, 1), 0).is_ok());
    assert_eq!(s.reg.V[0], 4);
    assert_eq!(s.reg.V[0xF], 1);
}

#[test]
fn shr_reads_flag_from_original_value() {
    let mut s = fresh();
    s.reg.V[2] = 0x05;
    assert!(execute(&mut s, Instruction::Shr(2), 0).is_ok());
    assert_eq!(s.reg.V[2], 0x02);
    assert_eq!(s.reg.V[0xF], 1); // low bit of the original 0x05

    let mut s = fresh();
    s.reg.V[2] = 0x04;
    assert!(execute(&mut s, Instruction::Shr(2), 0).is_ok());
    assert_eq!(s.reg.V[2], 0x02);
    assert_eq!(s.reg.V[0xF], 0);
}

#[test]
fn shl_reads_flag_from_original_value() {
    let mut s = fresh();
    s.reg.V[2] = 0x81;
    assert!(execute(&mut s, Instruction::Shl(2), 0).is_ok());
    assert_eq!(s.reg.V[2], 0x02); // high bit dropped
    assert_eq!(s.reg.V[0xF], 1); // high bit of the original 0x81

    let mut s = fresh();
    s.reg.V[2] = 0x41;
    assert!(execute(&mut s, Instruction::Shl(2), 0).is_ok());
    assert_eq!(s.reg.V[2], 0x82);
    assert_eq!(s.reg.V[0xF], 0);
}

#[test]
fn bitwise_ops() {
    let mut s = fresh();
    s.reg.V[0] = 0b1100;
    s.reg.V[1] = 0b1010;
    assert!(execute(&mut s, Instruction::Or(0, 1), 0).is_ok());
    assert_eq!(s.reg.V[0], 0b1110);

    s.reg.V[0] = 0b1100;
    assert!(execute(&mut s, Instruction::And(0, 1), 0).is_ok());
    assert_eq!(s.reg.V[0], 0b1000);

    s.reg.V[0] = 0b1100;
    assert!(execute(&mut s, Instruction::Xor(0, 1), 0).is_ok());
    assert_eq!(s.reg.V[0], 0b0110);
}

#[test]
fn skips_move_pc_by_two_only_when_condition_holds() {
    let mut s = fresh();
    let pc = s.reg.PC;
    s.reg.V[4] = 7;
    assert!(execute(&mut s, Instruction::SeByte(4, 7), 0).is_ok());
    assert_eq!(s.reg.PC, pc + 2);
    assert!(execute(&mut s, Instruction::SeByte(4, 8), 0).is_ok());
    assert_eq!(s.reg.PC, pc + 2);
    assert!(execute(&mut s, Instruction::SneByte(4, 8), 0).is_ok());
    assert_eq!(s.reg.PC, pc + 4);
    s.reg.V[5] = 7;
    assert!(execute(&mut s, Instruction::SeReg(4, 5), 0).is_ok());
    assert_eq!(s.reg.PC, pc + 6);
    assert!(execute(&mut s, Instruction::SneReg(4, 5), 0).is_ok());
    assert_eq!(s.reg.PC, pc + 6);
}

#[test]
fn loads_and_jumps() {
    let mut s = fresh();
    assert!(execute(&mut s, Instruction::LdByte(6, 0xAB), 0).is_ok());
    assert_eq!(s.reg.V[6], 0xAB);
    assert!(execute(&mut s, Instruction::LdReg(7, 6), 0).is_ok());
    assert_eq!(s.reg.V[7], 0xAB);
    assert!(execute(&mut s, Instruction::LdI(0x123), 0).is_ok());
    assert_eq!(s.reg.I, 0x123);
    assert!(execute(&mut s, Instruction::Jp(0x345), 0).is_ok());
    assert_eq!(s.reg.PC, 0x345);
    s.reg.V[0] = 0x10;
    assert!(execute(&mut s, Instruction::JpV0(0x300), 0).is_ok());
    assert_eq!(s.reg.PC, 0x310);
}

#[test]
fn rnd_masks_the_supplied_byte() {
    let mut s = fresh();
    assert!(execute(&mut s, Instruction::Rnd(0, 0x0F), 0xAB).is_ok());
    assert_eq!(s.reg.V[0], 0x0B);
    assert!(execute(&mut s, Instruction::Rnd(0, 0x00), 0xFF).is_ok());
    assert_eq!(s.reg.V[0], 0x00);
}

#[test]
fn timer_transfers() {
    let mut s = fresh();
    s.reg.V[2] = 42;
    assert!(execute(&mut s, Instruction::LdToDt(2), 0).is_ok());
    assert_eq!(s.reg.DT, 42);
    assert!(execute(&mut s, Instruction::LdFromDt(3), 0).is_ok());
    assert_eq!(s.reg.V[3], 42);
    assert!(execute(&mut s, Instruction::LdToSt(2), 0).is_ok());
    assert_eq!(s.reg.ST, 42);
}

#[test]
fn add_i_wraps_16_bits() {
    let mut s = fresh();
    s.reg.I = 0xFFFF;
    s.reg.V[1] = 3;
    assert!(execute(&mut s, Instruction::AddI(1), 0).is_ok());
    assert_eq!(s.reg.I, 2);
}

#[test]
fn ld_font_points_at_five_byte_glyphs() {
    let mut s = fresh();
    s.reg.V[4] = 0xA;
    assert!(execute(&mut s, Instruction::LdFont(4), 0).is_ok());
    assert_eq!(s.reg.I, 50);
}

#[test]
fn bcd_stores_three_decimal_digits() {
    let mut s = fresh();
    s.reg.V[0] = 237;
    s.reg.I = 0x300;
    assert!(execute(&mut s, Instruction::Bcd(0), 0).is_ok());
    assert_eq!(s.mem[0x300], 2);
    assert_eq!(s.mem[0x301], 3);
    assert_eq!(s.mem[0x302], 7);
}

#[test]
fn store_and_load_register_ranges() {
    let mut s = fresh();
    for k in 0..4u8 {
        s.reg.V[k as usize] = 10 + k;
    }
    s.reg.I = 0x400;
    assert!(execute(&mut s, Instruction::StoreRegs(3), 0).is_ok());
    assert_eq!(s.mem[0x400], 10);
    assert_eq!(s.mem[0x401], 11);
    assert_eq!(s.mem[0x402], 12);
    assert_eq!(s.mem[0x403], 13);
    assert_eq!(s.mem[0x404], 0); // one past the range stays untouched

    let mut t = fresh();
    t.mem[0x400] = 9;
    t.mem[0x401] = 8;
    t.reg.I = 0x400;
    t.reg.V[2] = 77;
    assert!(execute(&mut t, Instruction::LoadRegs(1), 0).is_ok());
    assert_eq!(t.reg.V[0], 9);
    assert_eq!(t.reg.V[1], 8);
    assert_eq!(t.reg.V[2], 77); // past the range stays untouched
}

#[test]
fn skp_and_sknp_follow_the_keypad() {
    let mut s = fresh();
    let pc = s.reg.PC;
    s.reg.V[0] = 5;
    s.key[5] = true;
    assert!(execute(&mut s, Instruction::Skp(0), 0).is_ok());
    assert_eq!(s.reg.PC, pc + 2);
    assert!(execute(&mut s, Instruction::Sknp(0), 0).is_ok());
    assert_eq!(s.reg.PC, pc + 2);
    s.key[5] = false;
    assert!(execute(&mut s, Instruction::Sknp(0), 0).is_ok());
    assert_eq!(s.reg.PC, pc + 4);
}

#[test]
fn wait_key_stores_lowest_pressed_key_or_retries() {
    let mut s = fresh();
    let pc = s.reg.PC;
    // No key down: the program counter steps back onto the instruction.
    assert!(execute(&mut s, Instruction::WaitKey(0), 0).is_ok());
    assert_eq!(s.reg.PC, pc - 2);
    // Keys down: the lowest one is stored, the program counter stays.
    let mut s = fresh();
    s.key[9] = true;
    s.key[4] = true;
    assert!(execute(&mut s, Instruction::WaitKey(2), 0).is_ok());
    assert_eq!(s.reg.V[2], 4);
    assert_eq!(s.reg.PC, pc);
}

#[test]
fn call_and_ret_manage_the_stack() {
    let mut s = fresh();
    s.reg.PC = 0x202; // as after fetching a CALL at 0x200
    assert!(execute(&mut s, Instruction::Call(0x300), 0).is_ok());
    assert_eq!(s.reg.PC, 0x300);
    assert_eq!(s.reg.SP, 1);
    assert_eq!(s.stack[1], 0x202);
    assert!(execute(&mut s, Instruction::Ret, 0).is_ok());
    assert_eq!(s.reg.PC, 0x202);
    assert_eq!(s.reg.SP, 0);
}

#[test]
fn ret_on_empty_stack_underflows() {
    let mut s = fresh();
    assert_eq!(execute(&mut s, Instruction::Ret, 0), Err(Fault::StackUnderflow));
}

#[test]
fn call_at_capacity_overflows() {
    let mut s = fresh();
    for _ in 0..15 {
        assert!(execute(&mut s, Instruction::Call(0x300), 0).is_ok());
    }
    assert_eq!(s.reg.SP, 15);
    assert_eq!(execute(&mut s, Instruction::Call(0x300), 0), Err(Fault::StackOverflow));
    assert_eq!(s.reg.SP, 15); // untouched on the fault
}

#[test]
fn memory_bound_faults() {
    let mut s = fresh();
    s.reg.I = 4095;
    assert_eq!(execute(&mut s, Instruction::Drw(0, 1, 2), 0), Err(Fault::MemoryOutOfRange));
    s.reg.I = 4094;
    assert_eq!(execute(&mut s, Instruction::Bcd(0), 0), Err(Fault::MemoryOutOfRange));
    s.reg.I = 4090;
    assert_eq!(execute(&mut s, Instruction::StoreRegs(15), 0), Err(Fault::MemoryOutOfRange));
    assert_eq!(execute(&mut s, Instruction::LoadRegs(15), 0), Err(Fault::MemoryOutOfRange));
}

#[test]
fn key_test_against_non_key_value_faults() {
    let mut s = fresh();
    s.reg.V[0] = 99;
    assert_eq!(execute(&mut s, Instruction::Skp(0), 0), Err(Fault::KeyOutOfRange));
    assert_eq!(execute(&mut s, Instruction::Sknp(0), 0), Err(Fault::KeyOutOfRange));
}

#[test]
fn decode_classifies_every_form() {
    assert_eq!(decode(0x00E0), Some(Instruction::Cls));
    assert_eq!(decode(0x00EE), Some(Instruction::Ret));
    assert_eq!(decode(0x1234), Some(Instruction::Jp(0x234)));
    assert_eq!(decode(0x2345), Some(Instruction::Call(0x345)));
    assert_eq!(decode(0x3A7F), Some(Instruction::SeByte(0xA, 0x7F)));
    assert_eq!(decode(0x4A7F), Some(Instruction::SneByte(0xA, 0x7F)));
    assert_eq!(decode(0x5AB0), Some(Instruction::SeReg(0xA, 0xB)));
    assert_eq!(decode(0x6C12), Some(Instruction::LdByte(0xC, 0x12)));
    assert_eq!(decode(0x7C12), Some(Instruction::AddByte(0xC, 0x12)));
    assert_eq!(decode(0x8120), Some(Instruction::LdReg(1, 2)));
    assert_eq!(decode(0x8121), Some(Instruction::Or(1, 2)));
    assert_eq!(decode(0x8122), Some(Instruction::And(1, 2)));
    assert_eq!(decode(0x8123), Some(Instruction::Xor(1, 2)));
    assert_eq!(decode(0x8124), Some(Instruction::AddReg(1, 2)));
    assert_eq!(decode(0x8125), Some(Instruction::Sub(1, 2)));
    assert_eq!(decode(0x8126), Some(Instruction::Shr(1)));
    assert_eq!(decode(0x8127), Some(Instruction::Subn(1, 2)));
    assert_eq!(decode(0x812E), Some(Instruction::Shl(1)));
    assert_eq!(decode(0x9120), Some(Instruction::SneReg(1, 2)));
    assert_eq!(decode(0xA678), Some(Instruction::LdI(0x678)));
    assert_eq!(decode(0xB678), Some(Instruction::JpV0(0x678)));
    assert_eq!(decode(0xC3F0), Some(Instruction::Rnd(3, 0xF0)));
    assert_eq!(decode(0xD125), Some(Instruction::Drw(1, 2, 5)));
    assert_eq!(decode(0xE19E), Some(Instruction::Skp(1)));
    assert_eq!(decode(0xE1A1), Some(Instruction::Sknp(1)));
    assert_eq!(decode(0xF107), Some(Instruction::LdFromDt(1)));
    assert_eq!(decode(0xF10A), Some(Instruction::WaitKey(1)));
    assert_eq!(decode(0xF115), Some(Instruction::LdToDt(1)));
    assert_eq!(decode(0xF118), Some(Instruction::LdToSt(1)));
    assert_eq!(decode(0xF11E), Some(Instruction::AddI(1)));
    assert_eq!(decode(0xF129), Some(Instruction::LdFont(1)));
    assert_eq!(decode(0xF133), Some(Instruction::Bcd(1)));
    assert_eq!(decode(0xF155), Some(Instruction::StoreRegs(1)));
    assert_eq!(decode(0xF165), Some(Instruction::LoadRegs(1)));
    // Patterns outside the table decode to nothing.
    assert_eq!(decode(0x0000), None);
    assert_eq!(decode(0x00E1), None);
    assert_eq!(decode(0x5AB1), None);
    assert_eq!(decode(0x8128), None);
    assert_eq!(decode(0x9121), None);
    assert_eq!(decode(0xE19F), None);
    assert_eq!(decode(0xFFFF), None);
}
