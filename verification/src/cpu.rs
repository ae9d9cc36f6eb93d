//! The instruction handlers and the fetch-decode-execute engine. Each
//! handler mutates the machine exactly as the corresponding semantic
//! function prescribes.
use vstd::prelude::*;

use crate::display::{draw_byte_rec, draw_rec, sprite_bit};
use crate::inst::{decode, Fault, Instruction};
use crate::registers::RegView;
use crate::semantics::{spec_drw, spec_execute, step_is_random, step_matches};
use crate::semantics::{
    lowest_key_from, op_matches, skip_if, spec_add_reg, spec_bcd, spec_call, spec_cls,
    spec_load_regs, spec_ret, spec_shl, spec_shr, spec_skp, spec_sknp, spec_store_regs, spec_sub,
    spec_subn, spec_wait_key, with_pc, with_v, wrap16, wrap8,
};
use crate::state::{State, StateView};
use crate::RAM_SIZE;

verus! {

/// Advance the program counter past one more instruction, wrapping at the
/// 16-bit bound.
fn skip(state: &mut State)
    ensures
        final(state)@ == with_pc(old(state)@, wrap16(old(state)@.reg.pc + 2)),
{
    let t: u32 = state.reg.PC as u32 + 2;
    state.reg.PC = (t % 0x10000) as u16;
    proof {
        assert(state@ =~= with_pc(old(state)@, wrap16(old(state)@.reg.pc + 2)));
    }
}

/// `CLS`.
pub fn op_cls(state: &mut State)
    requires
        old(state)@.wf(),
    ensures
        final(state)@.wf(),
        final(state)@ == spec_cls(old(state)@),
{
    state.display.cls();
    proof {
        assert(state@ =~= spec_cls(old(state)@));
    }
}

/// `RET`.
pub fn op_ret(state: &mut State) -> (r: Result<(), Fault>)
    requires
        old(state)@.wf(),
    ensures
        final(state)@.wf(),
        op_matches(old(state)@, final(state)@, r, spec_ret(old(state)@)),
{
    if state.reg.SP == 0 {
        return Err(Fault::StackUnderflow);
    }
    state.reg.PC = state.stack[state.reg.SP as usize];
    state.reg.SP = state.reg.SP - 1;
    proof {
        assert(state@ =~= spec_ret(old(state)@)->Ok_0);
    }
    Ok(())
}

/// `JP addr`.
pub fn op_jp(state: &mut State, nnn: u16)
    requires
        old(state)@.wf(),
    ensures
        final(state)@.wf(),
        final(state)@ == with_pc(old(state)@, nnn),
{
    state.reg.PC = nnn;
    proof {
        assert(state@ =~= with_pc(old(state)@, nnn));
    }
}

/// `CALL addr`.
pub fn op_call(state: &mut State, nnn: u16) -> (r: Result<(), Fault>)
    requires
        old(state)@.wf(),
    ensures
        final(state)@.wf(),
        op_matches(old(state)@, final(state)@, r, spec_call(old(state)@, nnn)),
{
    if state.reg.SP >= 15 {
        return Err(Fault::StackOverflow);
    }
    let slot: usize = state.reg.SP as usize + 1;
    state.stack[slot] = state.reg.PC;
    state.reg.SP = state.reg.SP + 1;
    state.reg.PC = nnn;
    proof {
        assert(state@ =~= spec_call(old(state)@, nnn)->Ok_0);
    }
    Ok(())
}

/// `SE Vx,kk`.
pub fn op_se_byte(state: &mut State, x: u8, kk: u8)
    requires
        old(state)@.wf(),
        x < 16,
    ensures
        final(state)@.wf(),
        final(state)@ == skip_if(old(state)@, old(state)@.reg.v[x as int] == kk),
{
    if state.reg.V[x as usize] == kk {
        skip(state);
    }
}

/// `SNE Vx,kk`.
pub fn op_sne_byte(state: &mut State, x: u8, kk: u8)
    requires
        old(state)@.wf(),
        x < 16,
    ensures
        final(state)@.wf(),
        final(state)@ == skip_if(old(state)@, old(state)@.reg.v[x as int] != kk),
{
    if state.reg.V[x as usize] != kk {
        skip(state);
    }
}

/// `SE Vx,Vy`.
pub fn op_se_reg(state: &mut State, x: u8, y: u8)
    requires
        old(state)@.wf(),
        x < 16,
        y < 16,
    ensures
        final(state)@.wf(),
        final(state)@ == skip_if(
            old(state)@,
            old(state)@.reg.v[x as int] == old(state)@.reg.v[y as int],
        ),
{
    if state.reg.V[x as usize] == state.reg.V[y as usize] {
        skip(state);
    }
}

/// `SNE Vx,Vy`.
pub fn op_sne_reg(state: &mut State, x: u8, y: u8)
    requires
        old(state)@.wf(),
        x < 16,
        y < 16,
    ensures
        final(state)@.wf(),
        final(state)@ == skip_if(
            old(state)@,
            old(state)@.reg.v[x as int] != old(state)@.reg.v[y as int],
        ),
{
    if state.reg.V[x as usize] != state.reg.V[y as usize] {
        skip(state);
    }
}

/// `LD Vx,kk`.
pub fn op_ld_byte(state: &mut State, x: u8, kk: u8)
    requires
        old(state)@.wf(),
        x < 16,
    ensures
        final(state)@.wf(),
        final(state)@ == with_v(old(state)@, x as int, kk),
{
    state.reg.V[x as usize] = kk;
    proof {
        assert(state@ =~= with_v(old(state)@, x as int, kk));
    }
}

/// `ADD Vx,kk`: wrapping byte addition, no flag touched.
pub fn op_add_byte(state: &mut State, x: u8, kk: u8)
    requires
        old(state)@.wf(),
        x < 16,
    ensures
        final(state)@.wf(),
        final(state)@ == with_v(
            old(state)@,
            x as int,
            wrap8(old(state)@.reg.v[x as int] + kk),
        ),
{
    let sum: u16 = state.reg.V[x as usize] as u16 + kk as u16;
    state.reg.V[x as usize] = (sum % 256) as u8;
    proof {
        assert(state@ =~= with_v(
            old(state)@,
            x as int,
            wrap8(old(state)@.reg.v[x as int] + kk),
        ));
    }
}

/// `LD Vx,Vy`.
pub fn op_ld_reg(state: &mut State, x: u8, y: u8)
    requires
        old(state)@.wf(),
        x < 16,
        y < 16,
    ensures
        final(state)@.wf(),
        final(state)@ == with_v(old(state)@, x as int, old(state)@.reg.v[y as int]),
{
    state.reg.V[x as usize] = state.reg.V[y as usize];
    proof {
        assert(state@ =~= with_v(old(state)@, x as int, old(state)@.reg.v[y as int]));
    }
}

/// `OR Vx,Vy`.
pub fn op_or(state: &mut State, x: u8, y: u8)
    requires
        old(state)@.wf(),
        x < 16,
        y < 16,
    ensures
        final(state)@.wf(),
        final(state)@ == with_v(
            old(state)@,
            x as int,
            old(state)@.reg.v[x as int] | old(state)@.reg.v[y as int],
        ),
{
    let val: u8 = state.reg.V[x as usize] | state.reg.V[y as usize];
    state.reg.V[x as usize] = val;
    proof {
        assert(state@ =~= with_v(
            old(state)@,
            x as int,
            old(state)@.reg.v[x as int] | old(state)@.reg.v[y as int],
        ));
    }
}

/// `AND Vx,Vy`.
pub fn op_and(state: &mut State, x: u8, y: u8)
    requires
        old(state)@.wf(),
        x < 16,
        y < 16,
    ensures
        final(state)@.wf(),
        final(state)@ == with_v(
            old(state)@,
            x as int,
            old(state)@.reg.v[x as int] & old(state)@.reg.v[y as int],
        ),
{
    let val: u8 = state.reg.V[x as usize] & state.reg.V[y as usize];
    state.reg.V[x as usize] = val;
    proof {
        assert(state@ =~= with_v(
            old(state)@,
            x as int,
            old(state)@.reg.v[x as int] & old(state)@.reg.v[y as int],
        ));
    }
}

/// `XOR Vx,Vy`.
pub fn op_xor(state: &mut State, x: u8, y: u8)
    requires
        old(state)@.wf(),
        x < 16,
        y < 16,
    ensures
        final(state)@.wf(),
        final(state)@ == with_v(
            old(state)@,
            x as int,
            old(state)@.reg.v[x as int] ^ old(state)@.reg.v[y as int],
        ),
{
    let val: u8 = state.reg.V[x as usize] ^ state.reg.V[y as usize];
    state.reg.V[x as usize] = val;
    proof {
        assert(state@ =~= with_v(
            old(state)@,
            x as int,
            old(state)@.reg.v[x as int] ^ old(state)@.reg.v[y as int],
        ));
    }
}

/// `ADD Vx,Vy`: both operands are read before `VF` is written.
pub fn op_add_reg(state: &mut State, x: u8, y: u8)
    requires
        old(state)@.wf(),
        x < 16,
        y < 16,
    ensures
        final(state)@.wf(),
        final(state)@ == spec_add_reg(old(state)@, x as int, y as int),
{
    let a: u8 = state.reg.V[x as usize];
    let b: u8 = state.reg.V[y as usize];
    let sum: u16 = a as u16 + b as u16;
    state.reg.V[0xF] = if sum > 255 {
        1
    } else {
        0
    };
    state.reg.V[x as usize] = (sum % 256) as u8;
    proof {
        assert(state@ =~= spec_add_reg(old(state)@, x as int, y as int));
    }
}

/// `SUB Vx,Vy`: both operands are read before `VF` is written.
pub fn op_sub(state: &mut State, x: u8, y: u8)
    requires
        old(state)@.wf(),
        x < 16,
        y < 16,
    ensures
        final(state)@.wf(),
        final(state)@ == spec_sub(old(state)@, x as int, y as int),
{
    let a: u8 = state.reg.V[x as usize];
    let b: u8 = state.reg.V[y as usize];
    let diff: u16 = (a as u16 + 256) - b as u16;
    state.reg.V[0xF] = if a > b {
        1
    } else {
        0
    };
    state.reg.V[x as usize] = (diff % 256) as u8;
    proof {
        assert(state@ =~= spec_sub(old(state)@, x as int, y as int));
    }
}

/// `SUBN Vx,Vy`: both operands are read before `VF` is written.
pub fn op_subn(state: &mut State, x: u8, y: u8)
    requires
        old(state)@.wf(),
        x < 16,
        y < 16,
    ensures
        final(state)@.wf(),
        final(state)@ == spec_subn(old(state)@, x as int, y as int),
{
    let a: u8 = state.reg.V[x as usize];
    let b: u8 = state.reg.V[y as usize];
    let diff: u16 = (b as u16 + 256) - a as u16;
    state.reg.V[0xF] = if b > a {
        1
    } else {
        0
    };
    state.reg.V[x as usize] = (diff % 256) as u8;
    proof {
        assert(state@ =~= spec_subn(old(state)@, x as int, y as int));
    }
}

/// `SHR Vx`: the flag takes the low bit of the original value.
pub fn op_shr(state: &mut State, x: u8)
    requires
        old(state)@.wf(),
        x < 16,
    ensures
        final(state)@.wf(),
        final(state)@ == spec_shr(old(state)@, x as int),
{
    let a: u8 = state.reg.V[x as usize];
    state.reg.V[0xF] = if a % 2 == 1 {
        1
    } else {
        0
    };
    state.reg.V[x as usize] = a / 2;
    proof {
        assert(state@ =~= spec_shr(old(state)@, x as int));
    }
}

/// `SHL Vx`: the flag takes the high bit of the original value.
pub fn op_shl(state: &mut State, x: u8)
    requires
        old(state)@.wf(),
        x < 16,
    ensures
        final(state)@.wf(),
        final(state)@ == spec_shl(old(state)@, x as int),
{
    let a: u8 = state.reg.V[x as usize];
    let doubled: u16 = a as u16 * 2;
    state.reg.V[0xF] = if a >= 0x80 {
        1
    } else {
        0
    };
    state.reg.V[x as usize] = (doubled % 256) as u8;
    proof {
        assert(state@ =~= spec_shl(old(state)@, x as int));
    }
}

/// `LD I,addr`.
pub fn op_ld_i(state: &mut State, nnn: u16)
    requires
        old(state)@.wf(),
    ensures
        final(state)@.wf(),
        final(state)@ == (StateView { reg: RegView { i: nnn, ..old(state)@.reg }, ..old(state)@ }),
{
    state.reg.I = nnn;
    proof {
        assert(state@ =~= (StateView {
            reg: RegView { i: nnn, ..old(state)@.reg },
            ..old(state)@
        }));
    }
}

/// `JP V0,addr`.
pub fn op_jp_v0(state: &mut State, nnn: u16)
    requires
        old(state)@.wf(),
    ensures
        final(state)@.wf(),
        final(state)@ == with_pc(old(state)@, wrap16(nnn + old(state)@.reg.v[0])),
{
    let t: u32 = nnn as u32 + state.reg.V[0] as u32;
    state.reg.PC = (t % 0x10000) as u16;
    proof {
        assert(state@ =~= with_pc(old(state)@, wrap16(nnn + old(state)@.reg.v[0])));
    }
}

/// `RND Vx,kk`: mask the supplied random byte with `kk`.
pub fn op_rnd(state: &mut State, x: u8, kk: u8, rnd: u8)
    requires
        old(state)@.wf(),
        x < 16,
    ensures
        final(state)@.wf(),
        final(state)@ == with_v(old(state)@, x as int, rnd & kk),
{
    state.reg.V[x as usize] = rnd & kk;
    proof {
        assert(state@ =~= with_v(old(state)@, x as int, rnd & kk));
    }
}

/// `SKP Vx`.
pub fn op_skp(state: &mut State, x: u8) -> (r: Result<(), Fault>)
    requires
        old(state)@.wf(),
        x < 16,
    ensures
        final(state)@.wf(),
        op_matches(old(state)@, final(state)@, r, spec_skp(old(state)@, x as int)),
{
    let vx: u8 = state.reg.V[x as usize];
    if vx >= 16 {
        return Err(Fault::KeyOutOfRange);
    }
    if state.key[vx as usize] {
        skip(state);
    }
    Ok(())
}

/// `SKNP Vx`.
pub fn op_sknp(state: &mut State, x: u8) -> (r: Result<(), Fault>)
    requires
        old(state)@.wf(),
        x < 16,
    ensures
        final(state)@.wf(),
        op_matches(old(state)@, final(state)@, r, spec_sknp(old(state)@, x as int)),
{
    let vx: u8 = state.reg.V[x as usize];
    if vx >= 16 {
        return Err(Fault::KeyOutOfRange);
    }
    if !state.key[vx as usize] {
        skip(state);
    }
    Ok(())
}

/// `LD Vx,DT`.
pub fn op_ld_from_dt(state: &mut State, x: u8)
    requires
        old(state)@.wf(),
        x < 16,
    ensures
        final(state)@.wf(),
        final(state)@ == with_v(old(state)@, x as int, old(state)@.reg.dt),
{
    state.reg.V[x as usize] = state.reg.DT;
    proof {
        assert(state@ =~= with_v(old(state)@, x as int, old(state)@.reg.dt));
    }
}

/// `LD DT,Vx`.
pub fn op_ld_to_dt(state: &mut State, x: u8)
    requires
        old(state)@.wf(),
        x < 16,
    ensures
        final(state)@.wf(),
        final(state)@ == (StateView {
            reg: RegView { dt: old(state)@.reg.v[x as int], ..old(state)@.reg },
            ..old(state)@
        }),
{
    state.reg.DT = state.reg.V[x as usize];
    proof {
        assert(state@ =~= (StateView {
            reg: RegView { dt: old(state)@.reg.v[x as int], ..old(state)@.reg },
            ..old(state)@
        }));
    }
}

/// `LD ST,Vx`.
pub fn op_ld_to_st(state: &mut State, x: u8)
    requires
        old(state)@.wf(),
        x < 16,
    ensures
        final(state)@.wf(),
        final(state)@ == (StateView {
            reg: RegView { st: old(state)@.reg.v[x as int], ..old(state)@.reg },
            ..old(state)@
        }),
{
    state.reg.ST = state.reg.V[x as usize];
    proof {
        assert(state@ =~= (StateView {
            reg: RegView { st: old(state)@.reg.v[x as int], ..old(state)@.reg },
            ..old(state)@
        }));
    }
}

/// `ADD I,Vx`: wrapping 16-bit addition, no flag defined.
pub fn op_add_i(state: &mut State, x: u8)
    requires
        old(state)@.wf(),
        x < 16,
    ensures
        final(state)@.wf(),
        final(state)@ == (StateView {
            reg: RegView {
                i: wrap16(old(state)@.reg.i + old(state)@.reg.v[x as int]),
                ..old(state)@.reg
            },
            ..old(state)@
        }),
{
    let t: u32 = state.reg.I as u32 + state.reg.V[x as usize] as u32;
    state.reg.I = (t % 0x10000) as u16;
    proof {
        assert(state@ =~= (StateView {
            reg: RegView {
                i: wrap16(old(state)@.reg.i + old(state)@.reg.v[x as int]),
                ..old(state)@.reg
            },
            ..old(state)@
        }));
    }
}

/// `LD F,Vx`: the font glyph for digit `d` sits at address `5 * d`.
pub fn op_ld_font(state: &mut State, x: u8)
    requires
        old(state)@.wf(),
        x < 16,
    ensures
        final(state)@.wf(),
        final(state)@ == (StateView {
            reg: RegView {
                i: (old(state)@.reg.v[x as int] * 5) as u16,
                ..old(state)@.reg
            },
            ..old(state)@
        }),
{
    let digit: u16 = state.reg.V[x as usize] as u16;
    state.reg.I = digit * 5;
    proof {
        assert(state@ =~= (StateView {
            reg: RegView {
                i: (old(state)@.reg.v[x as int] * 5) as u16,
                ..old(state)@.reg
            },
            ..old(state)@
        }));
    }
}

/// No key at or above `k` is pressed, so the scan from `j <= k` finds the
/// same answer as the scan from `k`.
proof fn lemma_lowest_key_none(keys: Seq<bool>, j: int)
    requires
        keys.len() == 16,
        0 <= j <= 16,
        forall|t: int| j <= t < 16 ==> !keys[t],
    ensures
        lowest_key_from(keys, j) is None,
    decreases 16 - j,
{
    if j < 16 {
        lemma_lowest_key_none(keys, j + 1);
    }
}

/// Key `k` is pressed and none below it (from `j` on) is: the scan from
/// `j` answers `k`.
proof fn lemma_lowest_key_found(keys: Seq<bool>, j: int, k: int)
    requires
        keys.len() == 16,
        0 <= j <= k < 16,
        forall|t: int| j <= t < k ==> !keys[t],
        keys[k],
    ensures
        lowest_key_from(keys, j) == Some(k as u8),
    decreases k - j,
{
    if j < k {
        lemma_lowest_key_found(keys, j + 1, k);
    }
}

/// `LD Vx,K`: store the lowest pressed key, or step back onto this
/// instruction when no key is down, so the driver retries it on the next
/// step and the instruction observes exactly the key press that satisfies
/// it.
pub fn op_wait_key(state: &mut State, x: u8)
    requires
        old(state)@.wf(),
        x < 16,
    ensures
        final(state)@.wf(),
        final(state)@ == spec_wait_key(old(state)@, x as int),
{
    let mut k: usize = 0;
    while k < 16
        invariant
            old(state)@.wf(),
            x < 16,
            k <= 16,
            state == old(state),
            forall|t: int| 0 <= t < k ==> !old(state)@.key[t],
        decreases 16 - k,
    {
        if state.key[k] {
            state.reg.V[x as usize] = k as u8;
            proof {
                lemma_lowest_key_found(old(state)@.key, 0, k as int);
                assert(state@ =~= spec_wait_key(old(state)@, x as int));
            }
            return ;
        }
        k = k + 1;
    }
    proof {
        lemma_lowest_key_none(old(state)@.key, 0);
    }
    let t: u32 = state.reg.PC as u32 + 0x10000 - 2;
    state.reg.PC = (t % 0x10000) as u16;
    proof {
        assert(t as int % 0x10000 == (old(state)@.reg.pc - 2) % 0x10000) by {
            vstd::arithmetic::div_mod::lemma_mod_sub_multiples_vanish(
                old(state)@.reg.pc - 2,
                0x10000,
            );
        }
        assert(state@ =~= spec_wait_key(old(state)@, x as int));
    }
}

/// `LD B,Vx`: hundreds, tens and ones of `Vx` into `mem[I..I+3)`.
pub fn op_bcd(state: &mut State, x: u8) -> (r: Result<(), Fault>)
    requires
        old(state)@.wf(),
        x < 16,
    ensures
        final(state)@.wf(),
        op_matches(old(state)@, final(state)@, r, spec_bcd(old(state)@, x as int)),
{
    let i: usize = state.reg.I as usize;
    if i + 2 >= RAM_SIZE {
        return Err(Fault::MemoryOutOfRange);
    }
    let a: u8 = state.reg.V[x as usize];
    state.mem[i] = a / 100;
    state.mem[i + 1] = (a / 10) % 10;
    state.mem[i + 2] = a % 10;
    proof {
        assert(state@ =~= spec_bcd(old(state)@, x as int)->Ok_0);
    }
    Ok(())
}

/// `LD [I],Vx`: copy `V0..=Vx` into memory at `I`.
pub fn op_store_regs(state: &mut State, x: u8) -> (r: Result<(), Fault>)
    requires
        old(state)@.wf(),
        x < 16,
    ensures
        final(state)@.wf(),
        op_matches(old(state)@, final(state)@, r, spec_store_regs(old(state)@, x as int)),
{
    let i: usize = state.reg.I as usize;
    if i + x as usize >= RAM_SIZE {
        return Err(Fault::MemoryOutOfRange);
    }
    let mut j: usize = 0;
    while j <= x as usize
        invariant
            old(state)@.wf(),
            x < 16,
            j <= x as usize + 1,
            i == old(state)@.reg.i as int,
            i + x < RAM_SIZE,
            state.stack == old(state).stack,
            state.reg == old(state).reg,
            state.display == old(state).display,
            state.audio == old(state).audio,
            state.key == old(state).key,
            state.mem@ == Seq::new(
                old(state)@.mem.len(),
                |a: int|
                    if i <= a < i + j {
                        old(state)@.reg.v[a - i]
                    } else {
                        old(state)@.mem[a]
                    },
            ),
        decreases x as usize + 1 - j,
    {
        state.mem[i + j] = state.reg.V[j];
        j = j + 1;
        proof {
            assert(state.mem@ =~= Seq::new(
                old(state)@.mem.len(),
                |a: int|
                    if i <= a < i + j {
                        old(state)@.reg.v[a - i]
                    } else {
                        old(state)@.mem[a]
                    },
            ));
        }
    }
    proof {
        assert(state@.mem =~= spec_store_regs(old(state)@, x as int)->Ok_0.mem);
        assert(state@ =~= spec_store_regs(old(state)@, x as int)->Ok_0);
    }
    Ok(())
}

/// `LD Vx,[I]`: read `V0..=Vx` from memory at `I`.
pub fn op_load_regs(state: &mut State, x: u8) -> (r: Result<(), Fault>)
    requires
        old(state)@.wf(),
        x < 16,
    ensures
        final(state)@.wf(),
        op_matches(old(state)@, final(state)@, r, spec_load_regs(old(state)@, x as int)),
{
    let i: usize = state.reg.I as usize;
    if i + x as usize >= RAM_SIZE {
        return Err(Fault::MemoryOutOfRange);
    }
    let mut j: usize = 0;
    while j <= x as usize
        invariant
            old(state)@.wf(),
            x < 16,
            j <= x as usize + 1,
            i == old(state)@.reg.i as int,
            i + x < RAM_SIZE,
            state.mem == old(state).mem,
            state.stack == old(state).stack,
            state.display == old(state).display,
            state.audio == old(state).audio,
            state.key == old(state).key,
            state.reg.I == old(state).reg.I,
            state.reg.DT == old(state).reg.DT,
            state.reg.ST == old(state).reg.ST,
            state.reg.PC == old(state).reg.PC,
            state.reg.SP == old(state).reg.SP,
            state.reg.V@ == Seq::new(
                16,
                |k: int|
                    if 0 <= k < j {
                        old(state)@.mem[i + k]
                    } else {
                        old(state)@.reg.v[k]
                    },
            ),
        decreases x as usize + 1 - j,
    {
        state.reg.V[j] = state.mem[i + j];
        j = j + 1;
        proof {
            assert(state.reg.V@ =~= Seq::new(
                16,
                |k: int|
                    if 0 <= k < j {
                        old(state)@.mem[i + k]
                    } else {
                        old(state)@.reg.v[k]
                    },
            ));
        }
    }
    proof {
        assert(state@.reg.v =~= spec_load_regs(old(state)@, x as int)->Ok_0.reg.v);
        assert(state@ =~= spec_load_regs(old(state)@, x as int)->Ok_0);
    }
    Ok(())
}

/// `DRW Vx,Vy,n`: XOR the sprite at `mem[I..I+n)` onto the display at
/// `(Vx, Vy)`, wrapping at the edges, and set `VF` to 1 exactly when a lit
/// sprite bit touches an already-lit pixel; the prior pixel value decides,
/// read before the toggle.
pub fn op_drw(state: &mut State, x: u8, y: u8, n: u8) -> (r: Result<(), Fault>)
    requires
        old(state)@.wf(),
        x < 16,
        y < 16,
        n < 16,
    ensures
        final(state)@.wf(),
        op_matches(old(state)@, final(state)@, r, spec_drw(old(state)@, x as int, y as int, n as int)),
{
    let i: usize = state.reg.I as usize;
    let n_us: usize = n as usize;
    if i + n_us > RAM_SIZE {
        return Err(Fault::MemoryOutOfRange);
    }
    let x0: usize = state.reg.V[x as usize] as usize;
    let y0: usize = state.reg.V[y as usize] as usize;
    let w: usize = state.display.width();
    let h: usize = state.display.height();
    let ghost sprite: Seq<u8> = old(state)@.mem.subrange(i as int, i as int + n as int);
    let ghost full: (Seq<Seq<bool>>, bool) = draw_rec(
        old(state)@.display.grid,
        sprite,
        x0 as int,
        y0 as int,
        0,
        w as int,
        h as int,
    );
    let mut hit: bool = false;
    let mut r_i: usize = 0;
    while r_i < n_us
        invariant
            old(state)@.wf(),
            n < 16,
            r_i <= n_us,
            n_us == n as usize,
            i + n_us <= RAM_SIZE,
            i == old(state)@.reg.i as int,
            x0 as int == old(state)@.reg.v[x as int],
            y0 as int == old(state)@.reg.v[y as int],
            w as nat == old(state)@.display.width,
            h as nat == old(state)@.display.height,
            state.mem == old(state).mem,
            state.stack == old(state).stack,
            state.reg == old(state).reg,
            state.audio == old(state).audio,
            state.key == old(state).key,
            state@.display.wf(),
            state@.display.width == old(state)@.display.width,
            state@.display.height == old(state)@.display.height,
            sprite == old(state)@.mem.subrange(i as int, i as int + n as int),
            full == draw_rec(
                old(state)@.display.grid,
                sprite,
                x0 as int,
                y0 as int,
                0,
                w as int,
                h as int,
            ),
            ({
                let rest = draw_rec(
                    state@.display.grid,
                    sprite,
                    x0 as int,
                    y0 as int,
                    r_i as int,
                    w as int,
                    h as int,
                );
                full.0 == rest.0 && full.1 == (hit || rest.1)
            }),
        decreases n_us - r_i,
    {
        let byte: u8 = state.mem[i + r_i];
        let row: usize = (y0 + r_i) % h;
        proof {
            assert(sprite[r_i as int] == old(state)@.mem[i + r_i as int]);
        }
        let mut c: usize = 0;
        while c < 8
            invariant
                old(state)@.wf(),
                n < 16,
                r_i < n_us,
                c <= 8,
                n_us == n as usize,
                i + n_us <= RAM_SIZE,
                i == old(state)@.reg.i as int,
                x0 as int == old(state)@.reg.v[x as int],
                y0 as int == old(state)@.reg.v[y as int],
                w as nat == old(state)@.display.width,
                h as nat == old(state)@.display.height,
                state.mem == old(state).mem,
                state.stack == old(state).stack,
                state.reg == old(state).reg,
                state.audio == old(state).audio,
                state.key == old(state).key,
                state@.display.wf(),
                state@.display.width == old(state)@.display.width,
                state@.display.height == old(state)@.display.height,
                sprite == old(state)@.mem.subrange(i as int, i as int + n as int),
                byte == sprite[r_i as int],
                row as int == (y0 as int + r_i as int) % (h as int),
                row < h,
                full == draw_rec(
                    old(state)@.display.grid,
                    sprite,
                    x0 as int,
                    y0 as int,
                    0,
                    w as int,
                    h as int,
                ),
                ({
                    let rest_b = draw_byte_rec(
                        state@.display.grid,
                        byte,
                        row as int,
                        x0 as int,
                        c as int,
                        w as int,
                    );
                    let rest_r = draw_rec(
                        rest_b.0,
                        sprite,
                        x0 as int,
                        y0 as int,
                        r_i as int + 1,
                        w as int,
                        h as int,
                    );
                    full.0 == rest_r.0 && full.1 == (hit || rest_b.1 || rest_r.1)
                }),
            decreases 8 - c,
        {
            let col: usize = (x0 + c) % w;
            let b: bool = byte & (0x80u8 >> (c as u8)) != 0;
            proof {
                assert(b == sprite_bit(byte, c as int));
                assert((row as int) % (h as int) == row as int) by {
                    vstd::arithmetic::div_mod::lemma_small_mod(row as nat, h as nat);
                }
                assert((col as int) % (w as int) == col as int) by {
                    vstd::arithmetic::div_mod::lemma_small_mod(col as nat, w as nat);
                }
            }
            if b && state.display.get(row, col) {
                hit = true;
            }
            state.display.pixel(row, col, b);
            c = c + 1;
        }
        r_i = r_i + 1;
    }
    state.reg.V[0xF] = if hit {
        1
    } else {
        0
    };
    proof {
        assert(state@ =~= spec_drw(old(state)@, x as int, y as int, n as int)->Ok_0);
    }
    Ok(())
}

/// Run one decoded instruction against the machine. `rnd` is the byte the
/// random source supplies for `RND`; every other form ignores it. On a
/// fault the machine is left exactly as it was.
pub fn execute(state: &mut State, inst: Instruction, rnd: u8) -> (r: Result<(), Fault>)
    requires
        old(state)@.wf(),
        inst.wf(),
    ensures
        final(state)@.wf(),
        op_matches(old(state)@, final(state)@, r, spec_execute(old(state)@, inst, rnd)),
{
    match inst {
        Instruction::Cls => {
            op_cls(state);
            Ok(())
        },
        Instruction::Ret => op_ret(state),
        Instruction::Jp(nnn) => {
            op_jp(state, nnn);
            Ok(())
        },
        Instruction::Call(nnn) => op_call(state, nnn),
        Instruction::SeByte(x, kk) => {
            op_se_byte(state, x, kk);
            Ok(())
        },
        Instruction::SneByte(x, kk) => {
            op_sne_byte(state, x, kk);
            Ok(())
        },
        Instruction::SeReg(x, y) => {
            op_se_reg(state, x, y);
            Ok(())
        },
        Instruction::LdByte(x, kk) => {
            op_ld_byte(state, x, kk);
            Ok(())
        },
        Instruction::AddByte(x, kk) => {
            op_add_byte(state, x, kk);
            Ok(())
        },
        Instruction::LdReg(x, y) => {
            op_ld_reg(state, x, y);
            Ok(())
        },
        Instruction::Or(x, y) => {
            op_or(state, x, y);
            Ok(())
        },
        Instruction::And(x, y) => {
            op_and(state, x, y);
            Ok(())
        },
        Instruction::Xor(x, y) => {
            op_xor(state, x, y);
            Ok(())
        },
        Instruction::AddReg(x, y) => {
            op_add_reg(state, x, y);
            Ok(())
        },
        Instruction::Sub(x, y) => {
            op_sub(state, x, y);
            Ok(())
        },
        Instruction::Shr(x) => {
            op_shr(state, x);
            Ok(())
        },
        Instruction::Subn(x, y) => {
            op_subn(state, x, y);
            Ok(())
        },
        Instruction::Shl(x) => {
            op_shl(state, x);
            Ok(())
        },
        Instruction::SneReg(x, y) => {
            op_sne_reg(state, x, y);
            Ok(())
        },
        Instruction::LdI(nnn) => {
            op_ld_i(state, nnn);
            Ok(())
        },
        Instruction::JpV0(nnn) => {
            op_jp_v0(state, nnn);
            Ok(())
        },
        Instruction::Rnd(x, kk) => {
            op_rnd(state, x, kk, rnd);
            Ok(())
        },
        Instruction::Drw(x, y, n) => op_drw(state, x, y, n),
        Instruction::Skp(x) => op_skp(state, x),
        Instruction::Sknp(x) => op_sknp(state, x),
        Instruction::LdFromDt(x) => {
            op_ld_from_dt(state, x);
            Ok(())
        },
        Instruction::WaitKey(x) => {
            op_wait_key(state, x);
            Ok(())
        },
        Instruction::LdToDt(x) => {
            op_ld_to_dt(state, x);
            Ok(())
        },
        Instruction::LdToSt(x) => {
            op_ld_to_st(state, x);
            Ok(())
        },
        Instruction::AddI(x) => {
            op_add_i(state, x);
            Ok(())
        },
        Instruction::LdFont(x) => {
            op_ld_font(state, x);
            Ok(())
        },
        Instruction::Bcd(x) => op_bcd(state, x),
        Instruction::StoreRegs(x) => op_store_regs(state, x),
        Instruction::LoadRegs(x) => op_load_regs(state, x),
    }
}

/// Relies on `rand::random`: one byte drawn from the thread-local
/// generator. Nothing is promised of the value; the handler that consumes
/// it is verified for every byte.
#[verifier::external_body]
fn random_byte() -> u8 {
    rand::random::<u8>()
}

/// The fetch-decode-execute engine.
pub struct Inst {}

impl Inst {
    /// A fresh engine.
    pub fn new() -> (it: Inst) {
        Inst {  }
    }

    /// One full step: fetch the opcode at the program counter, advance the
    /// program counter past it, decode, and execute. Some byte drawn from
    /// the random source witnesses the outcome; a step that is not the
    /// random form is pinned down for every byte. On a fault the machine
    /// is left exactly as it was.
    pub fn exec(&mut self, state: &mut State) -> (r: Result<(), Fault>)
        requires
            old(state)@.wf(),
        ensures
            final(state)@.wf(),
            exists|b: u8| step_matches(old(state)@, final(state)@, r, b),
            !step_is_random(old(state)@) ==> forall|b: u8|
                step_matches(old(state)@, final(state)@, r, b),
    {
        let pc: usize = state.reg.PC as usize;
        if pc + 1 >= RAM_SIZE {
            proof {
                assert(step_matches(
                    old(state)@,
                    state@,
                    Err::<(), Fault>(Fault::MemoryOutOfRange),
                    0u8,
                ));
            }
            return Err(Fault::MemoryOutOfRange);
        }
        let hi: u16 = state.mem[pc] as u16;
        let lo: u16 = state.mem[pc + 1] as u16;
        let op: u16 = hi * 256 + lo;
        match decode(op) {
            None => {
                let n1: u8 = (op / 0x1000) as u8;
                let n2: u8 = ((op / 0x100) % 16) as u8;
                let n3: u8 = ((op / 0x10) % 16) as u8;
                let n4: u8 = (op % 16) as u8;
                let f = Fault::InvalidOpcode(n1, n2, n3, n4, op);
                proof {
                    assert(step_matches(old(state)@, state@, Err::<(), Fault>(f), 0u8));
                }
                Err(f)
            },
            Some(inst) => {
                let pc0: u16 = state.reg.PC;
                state.reg.PC = pc0 + 2;
                proof {
                    assert(state@ =~= with_pc(old(state)@, (old(state)@.reg.pc + 2) as u16));
                }
                let b: u8 = match inst {
                    Instruction::Rnd(_, _) => random_byte(),
                    _ => 0,
                };
                let r = execute(state, inst, b);
                match r {
                    Ok(u) => {
                        proof {
                            assert(step_matches(old(state)@, state@, Ok::<(), Fault>(u), b));
                            if !(inst matches Instruction::Rnd(_, _)) {
                                assert forall|b2: u8|
                                    step_matches(old(state)@, state@, Ok::<(), Fault>(u), b2) by {
                                    assert(spec_execute(
                                        with_pc(old(state)@, (old(state)@.reg.pc + 2) as u16),
                                        inst,
                                        b2,
                                    ) == spec_execute(
                                        with_pc(old(state)@, (old(state)@.reg.pc + 2) as u16),
                                        inst,
                                        b,
                                    ));
                                }
                            }
                        }
                        Ok(u)
                    },
                    Err(f) => {
                        state.reg.PC = pc0;
                        proof {
                            assert(state@ =~= old(state)@);
                            assert(step_matches(old(state)@, state@, Err::<(), Fault>(f), b));
                            if !(inst matches Instruction::Rnd(_, _)) {
                                assert forall|b2: u8|
                                    step_matches(old(state)@, state@, Err::<(), Fault>(f), b2) by {
                                    assert(spec_execute(
                                        with_pc(old(state)@, (old(state)@.reg.pc + 2) as u16),
                                        inst,
                                        b2,
                                    ) == spec_execute(
                                        with_pc(old(state)@, (old(state)@.reg.pc + 2) as u16),
                                        inst,
                                        b,
                                    ));
                                }
                            }
                        }
                        Err(f)
                    },
                }
            },
        }
    }
}

} // verus!
