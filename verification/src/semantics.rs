//! The mathematical semantics of the machine: for each instruction form, a
//! function from the pre-state view to the post-state view (or to the fault
//! the form raises), and the fetch-decode-execute step built from them.
//!
//! Throughout, the pre-state is the state *after* the program counter has
//! advanced past the instruction, as the fetch contract prescribes: skips
//! and calls therefore speak of the address of the next instruction.
use vstd::prelude::*;

use crate::display::{blank_grid, draw_rec, DisplayView};
use crate::inst::{nib1, nib2, nib3, nib4, spec_decode, Fault, Instruction};
use crate::registers::RegView;
use crate::state::StateView;
use crate::RAM_SIZE;

verus! {

/// Reduce an integer to a byte, wrapping modulo 256.
pub open spec fn wrap8(n: int) -> u8 {
    (n % 256) as u8
}

/// Reduce an integer to 16 bits, wrapping modulo 65536.
pub open spec fn wrap16(n: int) -> u16 {
    (n % 0x10000) as u16
}

/// The state with register `x` set to `val`.
pub open spec fn with_v(s: StateView, x: int, val: u8) -> StateView {
    StateView { reg: RegView { v: s.reg.v.update(x, val), ..s.reg }, ..s }
}

/// The state with the program counter set to `pc`.
pub open spec fn with_pc(s: StateView, pc: u16) -> StateView {
    StateView { reg: RegView { pc, ..s.reg }, ..s }
}

/// Skip the next instruction when `cond` holds: the program counter moves
/// past one more two-byte opcode.
pub open spec fn skip_if(s: StateView, cond: bool) -> StateView {
    if cond {
        with_pc(s, wrap16(s.reg.pc + 2))
    } else {
        s
    }
}

/// `CLS`: every pixel unlit.
pub open spec fn spec_cls(s: StateView) -> StateView {
    StateView {
        display: DisplayView { grid: blank_grid(s.display.width, s.display.height), ..s.display },
        ..s
    }
}

/// `RET`: pop the return address into the program counter; underflow on an
/// empty stack is fatal.
pub open spec fn spec_ret(s: StateView) -> Result<StateView, Fault> {
    if s.reg.sp == 0 {
        Err(Fault::StackUnderflow)
    } else {
        Ok(
            StateView {
                reg: RegView {
                    pc: s.stack[s.reg.sp as int],
                    sp: (s.reg.sp - 1) as u8,
                    ..s.reg
                },
                ..s
            },
        )
    }
}

/// `CALL addr`: push the address of the next instruction and jump; a full
/// stack is fatal.
pub open spec fn spec_call(s: StateView, nnn: u16) -> Result<StateView, Fault> {
    if s.reg.sp >= 15 {
        Err(Fault::StackOverflow)
    } else {
        Ok(
            StateView {
                stack: s.stack.update(s.reg.sp as int + 1, s.reg.pc),
                reg: RegView { pc: nnn, sp: (s.reg.sp + 1) as u8, ..s.reg },
                ..s
            },
        )
    }
}

/// `ADD Vx,Vy`: `VF` becomes the carry of the unsigned sum of the original
/// operands, `Vx` the low byte of that sum; `Vx` is written after `VF`.
pub open spec fn spec_add_reg(s: StateView, x: int, y: int) -> StateView {
    let a = s.reg.v[x];
    let b = s.reg.v[y];
    let flag: u8 = if a + b > 255 { 1 } else { 0 };
    StateView {
        reg: RegView { v: s.reg.v.update(0xF, flag).update(x, wrap8(a + b)), ..s.reg },
        ..s
    }
}

/// `SUB Vx,Vy`: `VF` is 1 exactly when `Vx > Vy` before the subtraction;
/// `Vx` becomes the wrapped difference of the original operands.
pub open spec fn spec_sub(s: StateView, x: int, y: int) -> StateView {
    let a = s.reg.v[x];
    let b = s.reg.v[y];
    let flag: u8 = if a > b { 1 } else { 0 };
    StateView {
        reg: RegView { v: s.reg.v.update(0xF, flag).update(x, wrap8(a - b)), ..s.reg },
        ..s
    }
}

/// `SUBN Vx,Vy`: `VF` is 1 exactly when `Vy > Vx`; `Vx` becomes `Vy - Vx`,
/// wrapped.
pub open spec fn spec_subn(s: StateView, x: int, y: int) -> StateView {
    let a = s.reg.v[x];
    let b = s.reg.v[y];
    let flag: u8 = if b > a { 1 } else { 0 };
    StateView {
        reg: RegView { v: s.reg.v.update(0xF, flag).update(x, wrap8(b - a)), ..s.reg },
        ..s
    }
}

/// `SHR Vx`: `VF` takes the low bit of the original `Vx`, then `Vx` halves.
pub open spec fn spec_shr(s: StateView, x: int) -> StateView {
    let a = s.reg.v[x];
    let flag: u8 = if a % 2 == 1 { 1 } else { 0 };
    StateView {
        reg: RegView { v: s.reg.v.update(0xF, flag).update(x, (a / 2) as u8), ..s.reg },
        ..s
    }
}

/// `SHL Vx`: `VF` takes the high bit of the original `Vx`, then `Vx`
/// doubles, kept to 8 bits.
pub open spec fn spec_shl(s: StateView, x: int) -> StateView {
    let a = s.reg.v[x];
    let flag: u8 = if a >= 0x80 { 1 } else { 0 };
    StateView {
        reg: RegView { v: s.reg.v.update(0xF, flag).update(x, wrap8(a * 2)), ..s.reg },
        ..s
    }
}

/// `DRW Vx,Vy,n`: XOR the `n`-byte sprite at `mem[I..I+n)` onto the grid at
/// `(Vx, Vy)` with wrap-around, and set `VF` to 1 exactly when a lit sprite
/// bit lands on an already-lit pixel. Reading past the memory bound is
/// fatal.
pub open spec fn spec_drw(s: StateView, x: int, y: int, n: int) -> Result<StateView, Fault> {
    if s.reg.i + n > RAM_SIZE {
        Err(Fault::MemoryOutOfRange)
    } else {
        let sprite = s.mem.subrange(s.reg.i as int, s.reg.i + n);
        let pass = draw_rec(
            s.display.grid,
            sprite,
            s.reg.v[x] as int,
            s.reg.v[y] as int,
            0,
            s.display.width as int,
            s.display.height as int,
        );
        Ok(
            StateView {
                display: DisplayView { grid: pass.0, ..s.display },
                reg: RegView {
                    v: s.reg.v.update(0xF, if pass.1 { 1u8 } else { 0u8 }),
                    ..s.reg
                },
                ..s
            },
        )
    }
}

/// `SKP Vx`: skip when key `Vx` is down; a register value that names no key
/// is fatal.
pub open spec fn spec_skp(s: StateView, x: int) -> Result<StateView, Fault> {
    if s.reg.v[x] >= 16 {
        Err(Fault::KeyOutOfRange)
    } else {
        Ok(skip_if(s, s.key[s.reg.v[x] as int]))
    }
}

/// `SKNP Vx`: skip when key `Vx` is up; same fatal case as `SKP`.
pub open spec fn spec_sknp(s: StateView, x: int) -> Result<StateView, Fault> {
    if s.reg.v[x] >= 16 {
        Err(Fault::KeyOutOfRange)
    } else {
        Ok(skip_if(s, !s.key[s.reg.v[x] as int]))
    }
}

/// The lowest pressed key at or above index `k`, if any.
pub open spec fn lowest_key_from(keys: Seq<bool>, k: int) -> Option<u8>
    decreases 16 - k,
{
    if k < 0 || k >= 16 {
        None
    } else if keys[k] {
        Some(k as u8)
    } else {
        lowest_key_from(keys, k + 1)
    }
}

/// `LD Vx,K`: with a key down, store the lowest such key in `Vx`; with none
/// down, step the program counter back onto this instruction, so the step
/// loop retries it until a key-press event arrives.
pub open spec fn spec_wait_key(s: StateView, x: int) -> StateView {
    match lowest_key_from(s.key, 0) {
        Some(k) => with_v(s, x, k),
        None => with_pc(s, wrap16(s.reg.pc - 2)),
    }
}

/// `LD B,Vx`: the three decimal digits of `Vx` go to `mem[I..I+3)`;
/// writing past the memory bound is fatal.
pub open spec fn spec_bcd(s: StateView, x: int) -> Result<StateView, Fault> {
    if s.reg.i + 2 >= RAM_SIZE {
        Err(Fault::MemoryOutOfRange)
    } else {
        let a = s.reg.v[x] as int;
        let i = s.reg.i as int;
        Ok(
            StateView {
                mem: s.mem.update(i, (a / 100) as u8).update(i + 1, ((a / 10) % 10) as u8).update(
                    i + 2,
                    (a % 10) as u8,
                ),
                ..s
            },
        )
    }
}

/// `LD [I],Vx`: registers `V0..=Vx` go to `mem[I..I+x]`; writing past the
/// memory bound is fatal.
pub open spec fn spec_store_regs(s: StateView, x: int) -> Result<StateView, Fault> {
    if s.reg.i + x >= RAM_SIZE {
        Err(Fault::MemoryOutOfRange)
    } else {
        let i = s.reg.i as int;
        Ok(
            StateView {
                mem: Seq::new(
                    s.mem.len(),
                    |a: int| if i <= a <= i + x { s.reg.v[a - i] } else { s.mem[a] },
                ),
                ..s
            },
        )
    }
}

/// `LD Vx,[I]`: registers `V0..=Vx` are read from `mem[I..I+x]`; reading
/// past the memory bound is fatal.
pub open spec fn spec_load_regs(s: StateView, x: int) -> Result<StateView, Fault> {
    if s.reg.i + x >= RAM_SIZE {
        Err(Fault::MemoryOutOfRange)
    } else {
        let i = s.reg.i as int;
        Ok(
            StateView {
                reg: RegView {
                    v: Seq::new(
                        s.reg.v.len(),
                        |k: int| if 0 <= k <= x { s.mem[i + k] } else { s.reg.v[k] },
                    ),
                    ..s.reg
                },
                ..s
            },
        )
    }
}

/// Execute one decoded instruction on the post-fetch state. `rnd` is the
/// byte the random source hands to `RND`; every other form ignores it.
pub open spec fn spec_execute(s: StateView, inst: Instruction, rnd: u8) -> Result<
    StateView,
    Fault,
> {
    match inst {
        Instruction::Cls => Ok(spec_cls(s)),
        Instruction::Ret => spec_ret(s),
        Instruction::Jp(nnn) => Ok(with_pc(s, nnn)),
        Instruction::Call(nnn) => spec_call(s, nnn),
        Instruction::SeByte(x, kk) => Ok(skip_if(s, s.reg.v[x as int] == kk)),
        Instruction::SneByte(x, kk) => Ok(skip_if(s, s.reg.v[x as int] != kk)),
        Instruction::SeReg(x, y) => Ok(skip_if(s, s.reg.v[x as int] == s.reg.v[y as int])),
        Instruction::LdByte(x, kk) => Ok(with_v(s, x as int, kk)),
        Instruction::AddByte(x, kk) => Ok(
            with_v(s, x as int, wrap8(s.reg.v[x as int] + kk)),
        ),
        Instruction::LdReg(x, y) => Ok(with_v(s, x as int, s.reg.v[y as int])),
        Instruction::Or(x, y) => Ok(with_v(s, x as int, s.reg.v[x as int] | s.reg.v[y as int])),
        Instruction::And(x, y) => Ok(with_v(s, x as int, s.reg.v[x as int] & s.reg.v[y as int])),
        Instruction::Xor(x, y) => Ok(with_v(s, x as int, s.reg.v[x as int] ^ s.reg.v[y as int])),
        Instruction::AddReg(x, y) => Ok(spec_add_reg(s, x as int, y as int)),
        Instruction::Sub(x, y) => Ok(spec_sub(s, x as int, y as int)),
        Instruction::Shr(x) => Ok(spec_shr(s, x as int)),
        Instruction::Subn(x, y) => Ok(spec_subn(s, x as int, y as int)),
        Instruction::Shl(x) => Ok(spec_shl(s, x as int)),
        Instruction::SneReg(x, y) => Ok(skip_if(s, s.reg.v[x as int] != s.reg.v[y as int])),
        Instruction::LdI(nnn) => Ok(StateView { reg: RegView { i: nnn, ..s.reg }, ..s }),
        Instruction::JpV0(nnn) => Ok(with_pc(s, wrap16(nnn + s.reg.v[0]))),
        Instruction::Rnd(x, kk) => Ok(with_v(s, x as int, rnd & kk)),
        Instruction::Drw(x, y, n) => spec_drw(s, x as int, y as int, n as int),
        Instruction::Skp(x) => spec_skp(s, x as int),
        Instruction::Sknp(x) => spec_sknp(s, x as int),
        Instruction::LdFromDt(x) => Ok(with_v(s, x as int, s.reg.dt)),
        Instruction::WaitKey(x) => Ok(spec_wait_key(s, x as int)),
        Instruction::LdToDt(x) => Ok(
            StateView { reg: RegView { dt: s.reg.v[x as int], ..s.reg }, ..s },
        ),
        Instruction::LdToSt(x) => Ok(
            StateView { reg: RegView { st: s.reg.v[x as int], ..s.reg }, ..s },
        ),
        Instruction::AddI(x) => Ok(
            StateView { reg: RegView { i: wrap16(s.reg.i + s.reg.v[x as int]), ..s.reg }, ..s },
        ),
        Instruction::LdFont(x) => Ok(
            StateView { reg: RegView { i: (s.reg.v[x as int] * 5) as u16, ..s.reg }, ..s },
        ),
        Instruction::Bcd(x) => spec_bcd(s, x as int),
        Instruction::StoreRegs(x) => spec_store_regs(s, x as int),
        Instruction::LoadRegs(x) => spec_load_regs(s, x as int),
    }
}

/// The opcode at the program counter: two bytes combined big-endian.
pub open spec fn spec_fetch(s: StateView) -> u16 {
    (s.mem[s.reg.pc as int] * 256 + s.mem[s.reg.pc as int + 1]) as u16
}

/// One full fetch-decode-execute step. A program counter too close to the
/// memory bound is a fatal fetch; an unclassifiable opcode is a fatal
/// decode; otherwise the instruction runs on the state whose program
/// counter has already advanced past it.
pub open spec fn spec_step(s: StateView, rnd: u8) -> Result<StateView, Fault> {
    if s.reg.pc + 1 >= RAM_SIZE {
        Err(Fault::MemoryOutOfRange)
    } else {
        let op = spec_fetch(s);
        match spec_decode(op) {
            None => Err(Fault::InvalidOpcode(nib1(op), nib2(op), nib3(op), nib4(op), op)),
            Some(inst) => spec_execute(with_pc(s, (s.reg.pc + 2) as u16), inst, rnd),
        }
    }
}

/// How a handler's outcome relates a pre-state to a post-state, given what
/// the semantics prescribe: on success the post-state is the prescribed
/// one; on a fault the machine is left as it was.
pub open spec fn op_matches(
    pre: StateView,
    post: StateView,
    r: Result<(), Fault>,
    t: Result<StateView, Fault>,
) -> bool {
    match t {
        Ok(a) => r is Ok && post == a,
        Err(f) => r == Err::<(), Fault>(f) && post == pre,
    }
}

/// Whether the next step consumes a random byte: its fetch is in range and
/// the opcode decodes to the random form. Every other step is a function
/// of the machine state alone.
pub open spec fn step_is_random(s: StateView) -> bool {
    &&& s.reg.pc + 1 < RAM_SIZE
    &&& spec_decode(spec_fetch(s)) matches Some(Instruction::Rnd(_, _))
}

/// How one step's outcome relates a pre-state to a post-state: on success
/// the post-state is what the semantics prescribe; on a fault the machine
/// is left as it was.
pub open spec fn step_matches(
    pre: StateView,
    post: StateView,
    r: Result<(), Fault>,
    rnd: u8,
) -> bool {
    match spec_step(pre, rnd) {
        Ok(a) => r is Ok && post == a,
        Err(f) => r == Err::<(), Fault>(f) && post == pre,
    }
}

} // verus!
