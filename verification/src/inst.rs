//! Opcode decoding: a 16-bit opcode splits into four nibbles and classifies
//! into one of 34 instruction forms, or into a decode fault.
use vstd::prelude::*;

verus! {

/// A fatal condition: the engine has no recovery path for any of these, and
/// the driver is expected to halt with a diagnostic.
#[derive(Clone, Copy, Debug, PartialEq, Eq, Structural)]
pub enum Fault {
    /// An opcode matching none of the known forms: the four nibbles and the
    /// raw opcode value.
    InvalidOpcode(u8, u8, u8, u8, u16),
    /// A call with the stack pointer already at capacity.
    StackOverflow,
    /// A return with an empty stack.
    StackUnderflow,
    /// A read or write past the memory bound (memory addresses do not wrap).
    MemoryOutOfRange,
    /// A keypad test against a register value that names no key.
    KeyOutOfRange,
}

/// One decoded instruction. `x` and `y` name general-purpose registers,
/// `kk` is an immediate byte, `nnn` a 12-bit address, and the last operand
/// of `Drw` a sprite height in rows.
#[derive(Clone, Copy, Debug, PartialEq, Eq, Structural)]
pub enum Instruction {
    /// `00E0`: clear the display.
    Cls,
    /// `00EE`: return from a subroutine.
    Ret,
    /// `1nnn`: jump.
    Jp(u16),
    /// `2nnn`: call a subroutine.
    Call(u16),
    /// `3xkk`: skip the next instruction if `Vx == kk`.
    SeByte(u8, u8),
    /// `4xkk`: skip the next instruction if `Vx != kk`.
    SneByte(u8, u8),
    /// `5xy0`: skip the next instruction if `Vx == Vy`.
    SeReg(u8, u8),
    /// `6xkk`: `Vx <- kk`.
    LdByte(u8, u8),
    /// `7xkk`: `Vx <- Vx + kk`, wrapping, no flag touched.
    AddByte(u8, u8),
    /// `8xy0`: `Vx <- Vy`.
    LdReg(u8, u8),
    /// `8xy1`: `Vx <- Vx | Vy`.
    Or(u8, u8),
    /// `8xy2`: `Vx <- Vx & Vy`.
    And(u8, u8),
    /// `8xy3`: `Vx <- Vx ^ Vy`.
    Xor(u8, u8),
    /// `8xy4`: `Vx <- Vx + Vy` with `VF` as the carry flag.
    AddReg(u8, u8),
    /// `8xy5`: `Vx <- Vx - Vy` with `VF` as the not-borrow flag.
    Sub(u8, u8),
    /// `8xy6`: `Vx <- Vx >> 1` with `VF` as the shifted-out bit.
    Shr(u8),
    /// `8xy7`: `Vx <- Vy - Vx` with `VF` as the not-borrow flag.
    Subn(u8, u8),
    /// `8xyE`: `Vx <- Vx << 1` with `VF` as the shifted-out bit.
    Shl(u8),
    /// `9xy0`: skip the next instruction if `Vx != Vy`.
    SneReg(u8, u8),
    /// `Annn`: `I <- nnn`.
    LdI(u16),
    /// `Bnnn`: jump to `nnn + V0`.
    JpV0(u16),
    /// `Cxkk`: `Vx <- random byte & kk`.
    Rnd(u8, u8),
    /// `Dxyn`: draw an `n`-byte sprite from `mem[I]` at `(Vx, Vy)`.
    Drw(u8, u8, u8),
    /// `Ex9E`: skip the next instruction if key `Vx` is pressed.
    Skp(u8),
    /// `ExA1`: skip the next instruction if key `Vx` is not pressed.
    Sknp(u8),
    /// `Fx07`: `Vx <- DT`.
    LdFromDt(u8),
    /// `Fx0A`: wait for a key press and store the key in `Vx`.
    WaitKey(u8),
    /// `Fx15`: `DT <- Vx`.
    LdToDt(u8),
    /// `Fx18`: `ST <- Vx`.
    LdToSt(u8),
    /// `Fx1E`: `I <- I + Vx`, wrapping 16-bit.
    AddI(u8),
    /// `Fx29`: `I <-` the font-table address of the glyph for digit `Vx`.
    LdFont(u8),
    /// `Fx33`: store the decimal digits of `Vx` at `mem[I..I+3)`.
    Bcd(u8),
    /// `Fx55`: copy `V0..=Vx` into memory starting at `I`.
    StoreRegs(u8),
    /// `Fx65`: read `V0..=Vx` from memory starting at `I`.
    LoadRegs(u8),
}

/// The high nibble of an opcode.
pub open spec fn nib1(op: u16) -> u8 {
    (op / 0x1000) as u8
}

/// The second nibble of an opcode (the `x` register selector).
pub open spec fn nib2(op: u16) -> u8 {
    ((op / 0x100) % 16) as u8
}

/// The third nibble of an opcode (the `y` register selector).
pub open spec fn nib3(op: u16) -> u8 {
    ((op / 0x10) % 16) as u8
}

/// The low nibble of an opcode.
pub open spec fn nib4(op: u16) -> u8 {
    (op % 16) as u8
}

/// The immediate byte of an opcode: its low two nibbles.
pub open spec fn op_kk(op: u16) -> u8 {
    (op % 0x100) as u8
}

/// The address operand of an opcode: its low three nibbles.
pub open spec fn op_nnn(op: u16) -> u16 {
    op % 0x1000
}

impl Instruction {
    /// Operand bounds that decoding guarantees: register selectors and
    /// sprite heights are nibbles, addresses are 12 bits.
    pub open spec fn wf(self) -> bool {
        match self {
            Instruction::Cls => true,
            Instruction::Ret => true,
            Instruction::Jp(nnn) => nnn < 0x1000,
            Instruction::Call(nnn) => nnn < 0x1000,
            Instruction::SeByte(x, _kk) => x < 16,
            Instruction::SneByte(x, _kk) => x < 16,
            Instruction::SeReg(x, y) => x < 16 && y < 16,
            Instruction::LdByte(x, _kk) => x < 16,
            Instruction::AddByte(x, _kk) => x < 16,
            Instruction::LdReg(x, y) => x < 16 && y < 16,
            Instruction::Or(x, y) => x < 16 && y < 16,
            Instruction::And(x, y) => x < 16 && y < 16,
            Instruction::Xor(x, y) => x < 16 && y < 16,
            Instruction::AddReg(x, y) => x < 16 && y < 16,
            Instruction::Sub(x, y) => x < 16 && y < 16,
            Instruction::Shr(x) => x < 16,
            Instruction::Subn(x, y) => x < 16 && y < 16,
            Instruction::Shl(x) => x < 16,
            Instruction::SneReg(x, y) => x < 16 && y < 16,
            Instruction::LdI(nnn) => nnn < 0x1000,
            Instruction::JpV0(nnn) => nnn < 0x1000,
            Instruction::Rnd(x, _kk) => x < 16,
            Instruction::Drw(x, y, n) => x < 16 && y < 16 && n < 16,
            Instruction::Skp(x) => x < 16,
            Instruction::Sknp(x) => x < 16,
            Instruction::LdFromDt(x) => x < 16,
            Instruction::WaitKey(x) => x < 16,
            Instruction::LdToDt(x) => x < 16,
            Instruction::LdToSt(x) => x < 16,
            Instruction::AddI(x) => x < 16,
            Instruction::LdFont(x) => x < 16,
            Instruction::Bcd(x) => x < 16,
            Instruction::StoreRegs(x) => x < 16,
            Instruction::LoadRegs(x) => x < 16,
        }
    }
}

/// Classify an opcode into its instruction form, or `None` for the patterns
/// the machine does not know.
pub open spec fn spec_decode(op: u16) -> Option<Instruction> {
    let n1 = nib1(op);
    let n3 = nib3(op);
    let n4 = nib4(op);
    if op == 0x00E0 {
        Some(Instruction::Cls)
    } else if op == 0x00EE {
        Some(Instruction::Ret)
    } else if n1 == 0x1 {
        Some(Instruction::Jp(op_nnn(op)))
    } else if n1 == 0x2 {
        Some(Instruction::Call(op_nnn(op)))
    } else if n1 == 0x3 {
        Some(Instruction::SeByte(nib2(op), op_kk(op)))
    } else if n1 == 0x4 {
        Some(Instruction::SneByte(nib2(op), op_kk(op)))
    } else if n1 == 0x5 && n4 == 0x0 {
        Some(Instruction::SeReg(nib2(op), nib3(op)))
    } else if n1 == 0x6 {
        Some(Instruction::LdByte(nib2(op), op_kk(op)))
    } else if n1 == 0x7 {
        Some(Instruction::AddByte(nib2(op), op_kk(op)))
    } else if n1 == 0x8 && n4 == 0x0 {
        Some(Instruction::LdReg(nib2(op), nib3(op)))
    } else if n1 == 0x8 && n4 == 0x1 {
        Some(Instruction::Or(nib2(op), nib3(op)))
    } else if n1 == 0x8 && n4 == 0x2 {
        Some(Instruction::And(nib2(op), nib3(op)))
    } else if n1 == 0x8 && n4 == 0x3 {
        Some(Instruction::Xor(nib2(op), nib3(op)))
    } else if n1 == 0x8 && n4 == 0x4 {
        Some(Instruction::AddReg(nib2(op), nib3(op)))
    } else if n1 == 0x8 && n4 == 0x5 {
        Some(Instruction::Sub(nib2(op), nib3(op)))
    } else if n1 == 0x8 && n4 == 0x6 {
        Some(Instruction::Shr(nib2(op)))
    } else if n1 == 0x8 && n4 == 0x7 {
        Some(Instruction::Subn(nib2(op), nib3(op)))
    } else if n1 == 0x8 && n4 == 0xE {
        Some(Instruction::Shl(nib2(op)))
    } else if n1 == 0x9 && n4 == 0x0 {
        Some(Instruction::SneReg(nib2(op), nib3(op)))
    } else if n1 == 0xA {
        Some(Instruction::LdI(op_nnn(op)))
    } else if n1 == 0xB {
        Some(Instruction::JpV0(op_nnn(op)))
    } else if n1 == 0xC {
        Some(Instruction::Rnd(nib2(op), op_kk(op)))
    } else if n1 == 0xD {
        Some(Instruction::Drw(nib2(op), nib3(op), nib4(op)))
    } else if n1 == 0xE && n3 == 0x9 && n4 == 0xE {
        Some(Instruction::Skp(nib2(op)))
    } else if n1 == 0xE && n3 == 0xA && n4 == 0x1 {
        Some(Instruction::Sknp(nib2(op)))
    } else if n1 == 0xF && n3 == 0x0 && n4 == 0x7 {
        Some(Instruction::LdFromDt(nib2(op)))
    } else if n1 == 0xF && n3 == 0x0 && n4 == 0xA {
        Some(Instruction::WaitKey(nib2(op)))
    } else if n1 == 0xF && n3 == 0x1 && n4 == 0x5 {
        Some(Instruction::LdToDt(nib2(op)))
    } else if n1 == 0xF && n3 == 0x1 && n4 == 0x8 {
        Some(Instruction::LdToSt(nib2(op)))
    } else if n1 == 0xF && n3 == 0x1 && n4 == 0xE {
        Some(Instruction::AddI(nib2(op)))
    } else if n1 == 0xF && n3 == 0x2 && n4 == 0x9 {
        Some(Instruction::LdFont(nib2(op)))
    } else if n1 == 0xF && n3 == 0x3 && n4 == 0x3 {
        Some(Instruction::Bcd(nib2(op)))
    } else if n1 == 0xF && n3 == 0x5 && n4 == 0x5 {
        Some(Instruction::StoreRegs(nib2(op)))
    } else if n1 == 0xF && n3 == 0x6 && n4 == 0x5 {
        Some(Instruction::LoadRegs(nib2(op)))
    } else {
        None
    }
}

/// Decode an opcode. Returns exactly what `spec_decode` classifies, and
/// every decoded instruction has in-range operands.
pub fn decode(op: u16) -> (r: Option<Instruction>)
    ensures
        r == spec_decode(op),
        r matches Some(i) ==> i.wf(),
{
    let n1: u8 = (op / 0x1000) as u8;
    let n2: u8 = ((op / 0x100) % 16) as u8;
    let n3: u8 = ((op / 0x10) % 16) as u8;
    let n4: u8 = (op % 16) as u8;
    let kk: u8 = (op % 0x100) as u8;
    let nnn: u16 = op % 0x1000;
    if op == 0x00E0 {
        Some(Instruction::Cls)
    } else if op == 0x00EE {
        Some(Instruction::Ret)
    } else if n1 == 0x1 {
        Some(Instruction::Jp(nnn))
    } else if n1 == 0x2 {
        Some(Instruction::Call(nnn))
    } else if n1 == 0x3 {
        Some(Instruction::SeByte(n2, kk))
    } else if n1 == 0x4 {
        Some(Instruction::SneByte(n2, kk))
    } else if n1 == 0x5 && n4 == 0x0 {
        Some(Instruction::SeReg(n2, n3))
    } else if n1 == 0x6 {
        Some(Instruction::LdByte(n2, kk))
    } else if n1 == 0x7 {
        Some(Instruction::AddByte(n2, kk))
    } else if n1 == 0x8 && n4 == 0x0 {
        Some(Instruction::LdReg(n2, n3))
    } else if n1 == 0x8 && n4 == 0x1 {
        Some(Instruction::Or(n2, n3))
    } else if n1 == 0x8 && n4 == 0x2 {
        Some(Instruction::And(n2, n3))
    } else if n1 == 0x8 && n4 == 0x3 {
        Some(Instruction::Xor(n2, n3))
    } else if n1 == 0x8 && n4 == 0x4 {
        Some(Instruction::AddReg(n2, n3))
    } else if n1 == 0x8 && n4 == 0x5 {
        Some(Instruction::Sub(n2, n3))
    } else if n1 == 0x8 && n4 == 0x6 {
        Some(Instruction::Shr(n2))
    } else if n1 == 0x8 && n4 == 0x7 {
        Some(Instruction::Subn(n2, n3))
    } else if n1 == 0x8 && n4 == 0xE {
        Some(Instruction::Shl(n2))
    } else if n1 == 0x9 && n4 == 0x0 {
        Some(Instruction::SneReg(n2, n3))
    } else if n1 == 0xA {
        Some(Instruction::LdI(nnn))
    } else if n1 == 0xB {
        Some(Instruction::JpV0(nnn))
    } else if n1 == 0xC {
        Some(Instruction::Rnd(n2, kk))
    } else if n1 == 0xD {
        Some(Instruction::Drw(n2, n3, n4))
    } else if n1 == 0xE && n3 == 0x9 && n4 == 0xE {
        Some(Instruction::Skp(n2))
    } else if n1 == 0xE && n3 == 0xA && n4 == 0x1 {
        Some(Instruction::Sknp(n2))
    } else if n1 == 0xF && n3 == 0x0 && n4 == 0x7 {
        Some(Instruction::LdFromDt(n2))
    } else if n1 == 0xF && n3 == 0x0 && n4 == 0xA {
        Some(Instruction::WaitKey(n2))
    } else if n1 == 0xF && n3 == 0x1 && n4 == 0x5 {
        Some(Instruction::LdToDt(n2))
    } else if n1 == 0xF && n3 == 0x1 && n4 == 0x8 {
        Some(Instruction::LdToSt(n2))
    } else if n1 == 0xF && n3 == 0x1 && n4 == 0xE {
        Some(Instruction::AddI(n2))
    } else if n1 == 0xF && n3 == 0x2 && n4 == 0x9 {
        Some(Instruction::LdFont(n2))
    } else if n1 == 0xF && n3 == 0x3 && n4 == 0x3 {
        Some(Instruction::Bcd(n2))
    } else if n1 == 0xF && n3 == 0x5 && n4 == 0x5 {
        Some(Instruction::StoreRegs(n2))
    } else if n1 == 0xF && n3 == 0x6 && n4 == 0x5 {
        Some(Instruction::LoadRegs(n2))
    } else {
        None
    }
}

} // verus!
