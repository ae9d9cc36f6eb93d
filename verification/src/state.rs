//! The aggregate machine state: memory, call stack, registers, display,
//! audio trigger and keypad, owned as one value and mutated through the
//! instruction handlers.
use vstd::prelude::*;

use crate::audio::Audio;
use crate::display::{blank_grid, Display, DisplayView};
use crate::registers::{Reg, RegView};
use crate::{DISPLAY_MODE_HEIGHT, DISPLAY_MODE_WIDTH, ENTRY_POINT, KEYBOARD_SIZE, RAM_SIZE,
    STACK_SIZE};

verus! {

/// The whole machine.
pub struct State {
    /// The flat memory image: font table at the bottom, program from
    /// `ENTRY_POINT` upward.
    pub mem: [u8; RAM_SIZE],
    /// Return addresses, indexed by the stack pointer.
    pub stack: [u16; STACK_SIZE],
    /// The register and timer bank.
    pub reg: Reg,
    /// The display buffer.
    pub display: Display,
    /// The audio trigger driven by the sound timer.
    pub audio: Audio,
    /// One pressed-flag per logical key; an outside input collaborator
    /// mutates these, the interpreter only reads them.
    pub key: [bool; KEYBOARD_SIZE],
}

/// The mathematical shape of the machine.
#[verifier::ext_equal]
pub ghost struct StateView {
    pub mem: Seq<u8>,
    pub stack: Seq<u16>,
    pub reg: RegView,
    pub display: DisplayView,
    pub audio: bool,
    pub key: Seq<bool>,
}

impl StateView {
    /// The sizes the machine is built with, and a stack pointer in range.
    pub open spec fn wf(self) -> bool {
        &&& self.mem.len() == RAM_SIZE
        &&& self.stack.len() == STACK_SIZE
        &&& self.key.len() == KEYBOARD_SIZE
        &&& self.reg.wf()
        &&& self.display.wf()
    }
}

impl View for State {
    type V = StateView;

    open spec fn view(&self) -> StateView {
        StateView {
            mem: self.mem@,
            stack: self.stack@,
            reg: self.reg@,
            display: self.display@,
            audio: self.audio@,
            key: self.key@,
        }
    }
}

/// The font table: sixteen fixed glyphs of five bytes each; glyph `d`
/// occupies bytes `[5*d, 5*d + 5)`.
pub open spec fn font() -> Seq<u8> {
    seq![
        0xF0u8, 0x90, 0x90, 0x90, 0xF0, // 0
        0x20, 0x60, 0x20, 0x20, 0x70, // 1
        0xF0, 0x10, 0xF0, 0x80, 0xF0, // 2
        0xF0, 0x10, 0xF0, 0x10, 0xF0, // 3
        0x90, 0x90, 0xF0, 0x10, 0x10, // 4
        0xF0, 0x80, 0xF0, 0x10, 0xF0, // 5
        0xF0, 0x80, 0xF0, 0x90, 0xF0, // 6
        0xF0, 0x10, 0x20, 0x40, 0x40, // 7
        0xF0, 0x90, 0xF0, 0x90, 0x90, // 8
        0xF0, 0x90, 0xF0, 0x10, 0xF0, // 9
        0xF0, 0x90, 0xF0, 0x90, 0x90, // A
        0xE0, 0x90, 0xE0, 0x90, 0xE0, // B
        0xF0, 0x80, 0x80, 0x80, 0xF0, // C
        0xE0, 0x90, 0x90, 0x90, 0xE0, // D
        0xF0, 0x80, 0xF0, 0x80, 0xF0, // E
        0xF0, 0x80, 0xF0, 0x80, 0x80, // F
    ]
}

/// The memory image right after boot: the font table at the bottom, zeroes
/// everywhere else.
pub open spec fn boot_mem() -> Seq<u8> {
    Seq::new(RAM_SIZE as nat, |a: int| if 0 <= a < 80 { font()[a] } else { 0u8 })
}

/// The font table as bytes, for loading into memory.
pub fn font_data() -> (v: Vec<u8>)
    ensures
        v@ == font(),
{
    let mut v: Vec<u8> = Vec::new();
    v.push(0xF0); v.push(0x90); v.push(0x90); v.push(0x90); v.push(0xF0);
    v.push(0x20); v.push(0x60); v.push(0x20); v.push(0x20); v.push(0x70);
    v.push(0xF0); v.push(0x10); v.push(0xF0); v.push(0x80); v.push(0xF0);
    v.push(0xF0); v.push(0x10); v.push(0xF0); v.push(0x10); v.push(0xF0);
    v.push(0x90); v.push(0x90); v.push(0xF0); v.push(0x10); v.push(0x10);
    v.push(0xF0); v.push(0x80); v.push(0xF0); v.push(0x10); v.push(0xF0);
    v.push(0xF0); v.push(0x80); v.push(0xF0); v.push(0x90); v.push(0xF0);
    v.push(0xF0); v.push(0x10); v.push(0x20); v.push(0x40); v.push(0x40);
    v.push(0xF0); v.push(0x90); v.push(0xF0); v.push(0x90); v.push(0x90);
    v.push(0xF0); v.push(0x90); v.push(0xF0); v.push(0x10); v.push(0xF0);
    v.push(0xF0); v.push(0x90); v.push(0xF0); v.push(0x90); v.push(0x90);
    v.push(0xE0); v.push(0x90); v.push(0xE0); v.push(0x90); v.push(0xE0);
    v.push(0xF0); v.push(0x80); v.push(0x80); v.push(0x80); v.push(0xF0);
    v.push(0xE0); v.push(0x90); v.push(0x90); v.push(0x90); v.push(0xE0);
    v.push(0xF0); v.push(0x80); v.push(0xF0); v.push(0x80); v.push(0xF0);
    v.push(0xF0); v.push(0x80); v.push(0xF0); v.push(0x80); v.push(0x80);
    proof {
        assert(v@ =~= font());
    }
    v
}

impl State {
    /// A freshly booted machine: font table in memory, program counter at
    /// the load offset, everything else zeroed, display blank, keypad up.
    pub fn new() -> (s: State)
        ensures
            s@.wf(),
            s@.mem == boot_mem(),
            s@.stack == Seq::new(STACK_SIZE as nat, |k: int| 0u16),
            s@.reg.v == Seq::new(16, |k: int| 0u8),
            s@.reg.i == 0,
            s@.reg.dt == 0,
            s@.reg.st == 0,
            s@.reg.pc == ENTRY_POINT,
            s@.reg.sp == 0,
            s@.display.width == DISPLAY_MODE_WIDTH as nat,
            s@.display.height == DISPLAY_MODE_HEIGHT as nat,
            s@.display.grid == blank_grid(DISPLAY_MODE_WIDTH as nat, DISPLAY_MODE_HEIGHT as nat),
            !s@.audio,
            s@.key == Seq::new(KEYBOARD_SIZE as nat, |k: int| false),
    {
        let mut reg = Reg::new();
        reg.PC = ENTRY_POINT;
        let mut s = State {
            mem: [0u8; RAM_SIZE],
            stack: [0u16; STACK_SIZE],
            reg,
            display: Display::new(DISPLAY_MODE_WIDTH, DISPLAY_MODE_HEIGHT),
            audio: Audio::new(),
            key: [false; KEYBOARD_SIZE],
        };
        s.load_font();
        proof {
            assert(s@.mem =~= boot_mem());
            assert(s@.stack =~= Seq::new(STACK_SIZE as nat, |k: int| 0u16));
            assert(s@.key =~= Seq::new(KEYBOARD_SIZE as nat, |k: int| false));
        }
        s
    }

    /// Write the font table into the bottom of memory; the rest of the
    /// machine stays as it was.
    pub fn load_font(&mut self)
        ensures
            final(self)@ == (StateView {
                mem: Seq::new(
                    old(self)@.mem.len(),
                    |a: int| if 0 <= a < 80 { font()[a] } else { old(self)@.mem[a] },
                ),
                ..old(self)@
            }),
    {
        let data = font_data();
        let mut k: usize = 0;
        while k < 80
            invariant
                k <= 80,
                data@ == font(),
                self.mem@.len() == RAM_SIZE,
                self.mem@ == Seq::new(
                    old(self)@.mem.len(),
                    |a: int| if 0 <= a < k { font()[a] } else { old(self)@.mem[a] },
                ),
                self.stack == old(self).stack,
                self.reg == old(self).reg,
                self.display == old(self).display,
                self.audio == old(self).audio,
                self.key == old(self).key,
            decreases 80 - k,
        {
            self.mem[k] = data[k];
            k = k + 1;
            proof {
                assert(self.mem@ =~= Seq::new(
                    old(self)@.mem.len(),
                    |a: int| if 0 <= a < k { font()[a] } else { old(self)@.mem[a] },
                ));
            }
        }
        proof {
            assert(self@ =~= (StateView {
                mem: Seq::new(
                    old(self)@.mem.len(),
                    |a: int| if 0 <= a < 80 { font()[a] } else { old(self)@.mem[a] },
                ),
                ..old(self)@
            }));
        }
    }

    /// Copy a program image verbatim into memory starting at `ENTRY_POINT`.
    /// The image must fit below the top of memory; the rest of the machine
    /// stays as it was.
    pub fn load_rom(&mut self, rom: &Vec<u8>)
        requires
            rom@.len() <= RAM_SIZE - ENTRY_POINT as usize,
        ensures
            final(self)@ == (StateView {
                mem: Seq::new(
                    old(self)@.mem.len(),
                    |a: int|
                        if ENTRY_POINT <= a < ENTRY_POINT + rom@.len() {
                            rom@[a - ENTRY_POINT]
                        } else {
                            old(self)@.mem[a]
                        },
                ),
                ..old(self)@
            }),
    {
        let base: usize = ENTRY_POINT as usize;
        let mut k: usize = 0;
        while k < rom.len()
            invariant
                k <= rom@.len(),
                rom@.len() <= RAM_SIZE - base,
                base == ENTRY_POINT as usize,
                self.mem@.len() == RAM_SIZE,
                self.mem@ == Seq::new(
                    old(self)@.mem.len(),
                    |a: int|
                        if ENTRY_POINT <= a < ENTRY_POINT + k {
                            rom@[a - ENTRY_POINT]
                        } else {
                            old(self)@.mem[a]
                        },
                ),
                self.stack == old(self).stack,
                self.reg == old(self).reg,
                self.display == old(self).display,
                self.audio == old(self).audio,
                self.key == old(self).key,
            decreases rom@.len() - k,
        {
            self.mem[base + k] = rom[k];
            k = k + 1;
            proof {
                assert(self.mem@ =~= Seq::new(
                    old(self)@.mem.len(),
                    |a: int|
                        if ENTRY_POINT <= a < ENTRY_POINT + k {
                            rom@[a - ENTRY_POINT]
                        } else {
                            old(self)@.mem[a]
                        },
                ));
            }
        }
        proof {
            assert(self@ =~= (StateView {
                mem: Seq::new(
                    old(self)@.mem.len(),
                    |a: int|
                        if ENTRY_POINT <= a < ENTRY_POINT + rom@.len() {
                            rom@[a - ENTRY_POINT]
                        } else {
                            old(self)@.mem[a]
                        },
                ),
                ..old(self)@
            }));
        }
    }
}

} // verus!
