//! The register and timer bank: sixteen general-purpose 8-bit registers
//! (`V0`..`VF`, where `VF` doubles as the carry/borrow/collision flag), the
//! 16-bit address register `I`, the delay and sound timers, the program
//! counter and the stack pointer.
use vstd::prelude::*;

use crate::audio::Audio;
use crate::GP_REG_CNT;

verus! {

/// The register bank. All fields are owned plainly; the interpreter mutates
/// them through the instruction handlers.
pub struct Reg {
    /// General-purpose registers `V0`..`VF`.
    pub V: [u8; GP_REG_CNT],
    /// The address register.
    pub I: u16,
    /// The delay timer: decrements toward zero once per timer tick.
    pub DT: u8,
    /// The sound timer: decrements toward zero once per timer tick and keeps
    /// the audio trigger asserted while it is non-zero.
    pub ST: u8,
    /// The program counter.
    pub PC: u16,
    /// The stack pointer. Zero means the call stack is empty.
    pub SP: u8,
}

/// The mathematical shape of the register bank.
#[verifier::ext_equal]
pub ghost struct RegView {
    pub v: Seq<u8>,
    pub i: u16,
    pub dt: u8,
    pub st: u8,
    pub pc: u16,
    pub sp: u8,
}

impl RegView {
    /// Sixteen registers, and a stack pointer inside the 16-slot stack.
    pub open spec fn wf(self) -> bool {
        &&& self.v.len() == 16
        &&& self.sp < 16
    }
}

impl View for Reg {
    type V = RegView;

    open spec fn view(&self) -> RegView {
        RegView {
            v: self.V@,
            i: self.I,
            dt: self.DT,
            st: self.ST,
            pc: self.PC,
            sp: self.SP,
        }
    }
}

impl Reg {
    /// A zeroed register bank: the state before a program is loaded.
    pub fn new() -> (r: Reg)
        ensures
            r@.v == Seq::new(16, |k: int| 0u8),
            r@.i == 0,
            r@.dt == 0,
            r@.st == 0,
            r@.pc == 0,
            r@.sp == 0,
            r@.wf(),
    {
        let r = Reg { V: [0u8; GP_REG_CNT], I: 0, DT: 0, ST: 0, PC: 0, SP: 0 };
        proof {
            assert(r@.v =~= Seq::new(16, |k: int| 0u8));
        }
        r
    }

    /// One delay-timer tick: decrement `DT` if it is above zero, else leave
    /// it at zero. Nothing else moves.
    pub fn update_DT(&mut self)
        ensures
            final(self).DT == if old(self).DT > 0 { (old(self).DT - 1) as u8 } else { 0u8 },
            final(self).V == old(self).V,
            final(self).I == old(self).I,
            final(self).ST == old(self).ST,
            final(self).PC == old(self).PC,
            final(self).SP == old(self).SP,
    {
        if self.DT > 0 {
            self.DT = self.DT - 1;
        }
    }

    /// One sound-timer tick. While `ST` is above zero the audio trigger is
    /// kept asserted and `ST` decrements; the tick that brings `ST` to zero
    /// clears the trigger. A tick with `ST` already at zero moves nothing.
    pub fn update_ST(&mut self, audio: &mut Audio)
        ensures
            final(self).ST == if old(self).ST > 0 { (old(self).ST - 1) as u8 } else { 0u8 },
            final(audio)@ == if old(self).ST > 0 { old(self).ST > 1 } else { old(audio)@ },
            final(self).V == old(self).V,
            final(self).I == old(self).I,
            final(self).DT == old(self).DT,
            final(self).PC == old(self).PC,
            final(self).SP == old(self).SP,
    {
        if self.ST > 0 {
            if !audio.is_playing() {
                audio.play();
            }
            self.ST = self.ST - 1;
            if self.ST == 0 {
                audio.stop();
            }
        }
    }
}

} // verus!
