//! Whole-machine scenarios: boot image, ROM loading, the step engine, the
//! display, the timers and the audio trigger.
use chip8::audio::Audio;
use chip8::cpu::{execute, Inst};
use chip8::display::Display;
use chip8::inst::{Fault, Instruction};
use chip8::registers::Reg;
use chip8::state::{font_data, State};

#[test]
fn boot_image_holds_font_and_entry_point() {
    let s = State::new();
    assert_eq!(s.reg.PC, 0x200);
    assert_eq!(s.reg.SP, 0);
    let font = font_data();
    assert_eq!(font.len(), 80);
    for (k, b) in font.iter().enumerate() {
        assert_eq!(s.mem[k], *b);
    }
    for k in 80..4096 {
        assert_eq!(s.mem[k], 0);
    }
    // Glyph 0 and glyph F, byte for byte.
    assert_eq!(&s.mem[0..5], &[0xF0, 0x90, 0x90, 0x90, 0xF0]);
    assert_eq!(&s.mem[75..80], &[0xF0, 0x80, 0xF0, 0x80, 0x80]);
}

#[test]
fn load_rom_copies_bytes_at_the_entry_point() {
    let mut s = State::new();
    let rom = vec![0xDE, 0xAD, 0xBE, 0xEF];
    s.load_rom(&rom);
    assert_eq!(&s.mem[0x200..0x204], &[0xDE, 0xAD, 0xBE, 0xEF]);
    assert_eq!(s.mem[0x204], 0);
    assert_eq!(s.mem[0], 0xF0); // font untouched
}

#[test]
fn load_rom_of_the_largest_size_reaches_the_top_of_memory() {
    let mut s = State::new();
    let rom = vec![0xAB; 4096 - 0x200];
    s.load_rom(&rom);
    assert_eq!(s.mem[0x200], 0xAB);
    assert_eq!(s.mem[4095], 0xAB);
    assert_eq!(s.mem[0x1FF], 0);
}

#[test]
fn load_rom_of_no_bytes_changes_nothing() {
    let mut s = State::new();
    let before = s.mem;
    s.load_rom(&vec![]);
    assert_eq!(&s.mem[..], &before[..]);
}

#[test]
fn three_step_program_adds_without_overflow() {
    let mut s = State::new();
    s.load_rom(&vec![0x60, 0x05, 0x61, 0x03, 0x80, 0x14]);
    let mut engine = Inst::new();
    assert!(engine.exec(&mut s).is_ok());
    assert_eq!(s.reg.V[0], 5);
    assert!(engine.exec(&mut s).is_ok());
    assert_eq!(s.reg.V[1], 3);
    assert!(engine.exec(&mut s).is_ok());
    assert_eq!(s.reg.V[0], 8);
    assert_eq!(s.reg.V[0xF], 0);
    assert_eq!(s.reg.PC, 0x206);
}

#[test]
fn call_then_ret_restores_pc_and_sp() {
    let mut s = State::new();
    // 0x200: CALL 0x300; 0x300: RET.
    s.load_rom(&vec![0x23, 0x00]);
    s.mem[0x300] = 0x00;
    s.mem[0x301] = 0xEE;
    let mut engine = Inst::new();
    assert!(engine.exec(&mut s).is_ok());
    assert_eq!(s.reg.PC, 0x300);
    assert_eq!(s.reg.SP, 1);
    assert!(engine.exec(&mut s).is_ok());
    assert_eq!(s.reg.PC, 0x202); // the instruction after the CALL
    assert_eq!(s.reg.SP, 0);
}

#[test]
fn unknown_opcode_is_a_decode_fault_with_nibbles_and_raw_value() {
    let mut s = State::new();
    // Fresh memory at the entry point reads as opcode 0x0000.
    let mut engine = Inst::new();
    assert_eq!(engine.exec(&mut s), Err(Fault::InvalidOpcode(0, 0, 0, 0, 0)));
    assert_eq!(s.reg.PC, 0x200); // machine left as it was
    s.mem[0x200] = 0xFF;
    s.mem[0x201] = 0xFF;
    assert_eq!(engine.exec(&mut s), Err(Fault::InvalidOpcode(0xF, 0xF, 0xF, 0xF, 0xFFFF)));
}

#[test]
fn fetch_past_the_memory_bound_is_a_fault() {
    let mut s = State::new();
    s.reg.PC = 4095;
    let mut engine = Inst::new();
    assert_eq!(engine.exec(&mut s), Err(Fault::MemoryOutOfRange));
    assert_eq!(s.reg.PC, 4095);
}

#[test]
fn rnd_through_the_engine_stays_within_the_mask() {
    let mut s = State::new();
    // RND V0, 0x0F three times in a row.
    s.load_rom(&vec![0xC0, 0x0F, 0xC0, 0x0F, 0xC0, 0x0F]);
    let mut engine = Inst::new();
    for _ in 0..3 {
        assert!(engine.exec(&mut s).is_ok());
        assert_eq!(s.reg.V[0] & 0xF0, 0);
    }
}

#[test]
fn font_glyph_draw_scenario() {
    let mut s = State::new();
    // LD F,V0 with V0 = 0 points I at glyph 0.
    assert!(execute(&mut s, Instruction::LdFont(0), 0).is_ok());
    assert_eq!(s.reg.I, 0);
    // DRW V0,V1,5 with V0 = V1 = 0 renders the glyph at the origin.
    assert!(execute(&mut s, Instruction::Drw(0, 1, 5), 0).is_ok());
    assert_eq!(s.reg.V[0xF], 0);
    let glyph: [u8; 5] = [0xF0, 0x90, 0x90, 0x90, 0xF0];
    for r in 0..5 {
        for c in 0..8 {
            let want = glyph[r] & (0x80 >> c) != 0;
            assert_eq!(s.display.get(r, c), want);
        }
    }
}

#[test]
fn draw_wraps_at_both_edges() {
    let mut s = State::new();
    s.reg.I = 0x300;
    s.mem[0x300] = 0xFF;
    s.mem[0x301] = 0xFF;
    s.reg.V[0] = 63;
    s.reg.V[1] = 31;
    assert!(execute(&mut s, Instruction::Drw(0, 1, 2), 0).is_ok());
    // Rows touched are 31 and 0; columns 63 and 0..=6.
    for row in [31usize, 0usize] {
        assert!(s.display.get(row, 63));
        for c in 0..7 {
            assert!(s.display.get(row, c));
        }
        assert!(!s.display.get(row, 7));
    }
    for row in 1..31 {
        for c in 0..64 {
            assert!(!s.display.get(row, c));
        }
    }
}

#[test]
fn drawing_twice_collides_and_clears() {
    let mut s = State::new();
    s.reg.I = 0x300;
    s.mem[0x300] = 0xA5;
    s.mem[0x301] = 0x5A;
    s.reg.V[0] = 10;
    s.reg.V[1] = 12;
    assert!(execute(&mut s, Instruction::Drw(0, 1, 2), 0).is_ok());
    assert_eq!(s.reg.V[0xF], 0); // blank screen: nothing to collide with
    assert!(s.display.get(12, 10)); // 0xA5 leads with a lit bit
    assert!(execute(&mut s, Instruction::Drw(0, 1, 2), 0).is_ok());
    assert_eq!(s.reg.V[0xF], 1); // every lit bit lands on its own pixel
    for r in 0..32 {
        for c in 0..64 {
            assert!(!s.display.get(r, c)); // XOR twice: all cleared
        }
    }
}

#[test]
fn collision_is_judged_against_prior_pixels_only() {
    let mut s = State::new();
    s.reg.I = 0x300;
    s.mem[0x300] = 0x80; // one lit bit
    s.reg.V[0] = 0;
    s.reg.V[1] = 0;
    assert!(execute(&mut s, Instruction::Drw(0, 1, 1), 0).is_ok());
    assert_eq!(s.reg.V[0xF], 0);
    // A disjoint sprite bit never collides, even on a busy screen.
    s.reg.V[0] = 1;
    assert!(execute(&mut s, Instruction::Drw(0, 1, 1), 0).is_ok());
    assert_eq!(s.reg.V[0xF], 0);
    // The same bit again does collide.
    assert!(execute(&mut s, Instruction::Drw(0, 1, 1), 0).is_ok());
    assert_eq!(s.reg.V[0xF], 1);
}

#[test]
fn sound_timer_drives_the_audio_trigger() {
    let mut s = State::new();
    s.reg.V[7] = 2;
    assert!(execute(&mut s, Instruction::LdToSt(7), 0).is_ok());
    assert_eq!(s.reg.ST, 2);
    s.reg.update_ST(&mut s.audio);
    assert_eq!(s.reg.ST, 1);
    assert!(s.audio.is_playing()); // playing during the first tick
    s.reg.update_ST(&mut s.audio);
    assert_eq!(s.reg.ST, 0);
    assert!(!s.audio.is_playing()); // stopped as the timer reaches zero
    s.reg.update_ST(&mut s.audio);
    assert_eq!(s.reg.ST, 0); // clamped at zero
    assert!(!s.audio.is_playing());
}

#[test]
fn sound_timer_reports_playing_during_both_ticks() {
    let mut reg = Reg::new();
    let mut audio = Audio::new();
    reg.ST = 2;
    reg.update_ST(&mut audio);
    assert!(audio.is_playing());
    reg.update_ST(&mut audio);
    assert!(!audio.is_playing());
    assert_eq!(reg.ST, 0);
}

#[test]
fn delay_timer_clamps_at_zero() {
    let mut reg = Reg::new();
    reg.DT = 2;
    reg.update_DT();
    assert_eq!(reg.DT, 1);
    reg.update_DT();
    assert_eq!(reg.DT, 0);
    reg.update_DT();
    assert_eq!(reg.DT, 0);
}

#[test]
fn display_pixel_toggles_wraps_and_reports() {
    let mut d = Display::new(64, 32);
    assert_eq!(d.width(), 64);
    assert_eq!(d.height(), 32);
    assert!(!d.get(0, 0));
    // A lit update onto a dark pixel differs from it.
    assert!(d.pixel(0, 0, true));
    assert!(d.get(0, 0));
    // The same update again: prior equals update, and the pixel toggles off.
    assert!(!d.pixel(0, 0, true));
    assert!(!d.get(0, 0));
    // Coordinates wrap.
    d.pixel(32, 64, true);
    assert!(d.get(0, 0));
    // A dark update never changes the pixel.
    d.pixel(0, 0, false);
    assert!(d.get(0, 0));
    d.cls();
    for r in 0..32 {
        for c in 0..64 {
            assert!(!d.get(r, c));
        }
    }
}
