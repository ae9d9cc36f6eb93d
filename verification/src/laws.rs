//! Laws of the machine, proved from the semantics: what the draw collision
//! flag means, that drawing a sprite twice restores the grid, and that a
//! call followed by a return comes back to the instruction after the call.
use vstd::prelude::*;

use vstd::arithmetic::div_mod::{
    lemma_add_mod_noop, lemma_mod_bound, lemma_mod_sub_multiples_vanish, lemma_small_mod,
};

use crate::display::{
    draw_byte_rec, draw_rec, sprite_bit, toggle_pixel, wrap_col, wrap_row,
};
use crate::inst::{spec_decode, Instruction};
use crate::semantics::{spec_drw, spec_fetch, spec_step};
use crate::state::StateView;
use crate::RAM_SIZE;

verus! {

/// Two offsets less than the modulus apart land on distinct residues.
proof fn lemma_mod_distinct(a: int, d: int, w: int)
    requires
        w >= 1,
        a >= 0,
        0 < d < w,
    ensures
        (a + d) % w != a % w,
{
    let r = a % w;
    lemma_mod_bound(a, w);
    lemma_add_mod_noop(a, d, w);
    lemma_small_mod(d as nat, w as nat);
    if r + d < w {
        lemma_small_mod((r + d) as nat, w as nat);
    } else {
        lemma_mod_sub_multiples_vanish(r + d, w);
        lemma_small_mod((r + d - w) as nat, w as nat);
    }
}

/// What one sprite byte does to the grid, cell by cell: on a grid at least
/// eight columns wide, the eight target cells each XOR their sprite bit,
/// every other cell keeps its value, and the collision flag is set exactly
/// when a lit bit meets a lit cell.
pub proof fn lemma_draw_byte_pixelwise(
    grid: Seq<Seq<bool>>,
    byte: u8,
    row: int,
    x0: int,
    c: int,
    w: int,
    h: int,
)
    requires
        grid.len() == h,
        forall|r: int| 0 <= r < h ==> (#[trigger] grid[r]).len() == w,
        0 <= row < h,
        8 <= w,
        0 <= c <= 8,
        x0 >= 0,
    ensures
        ({
            let pass = draw_byte_rec(grid, byte, row, x0, c, w);
            &&& pass.0.len() == h
            &&& forall|r: int| 0 <= r < h ==> (#[trigger] pass.0[r]).len() == w
            &&& forall|r: int| 0 <= r < h && r != row ==> pass.0[r] == grid[r]
            &&& forall|cc: int|
                c <= cc < 8 ==> pass.0[row][#[trigger] wrap_col(x0, cc, w)] == (grid[row][wrap_col(
                    x0,
                    cc,
                    w,
                )] != sprite_bit(byte, cc))
            &&& forall|j: int|
                0 <= j < w && (forall|cc: int|
                    c <= cc < 8 ==> #[trigger] wrap_col(x0, cc, w) != j) ==> pass.0[row][j]
                    == grid[row][j]
            &&& pass.1 == exists|cc: int|
                c <= cc < 8 && #[trigger] sprite_bit(byte, cc) && grid[row][wrap_col(x0, cc, w)]
        }),
    decreases 8 - c,
{
    let pass = draw_byte_rec(grid, byte, row, x0, c, w);
    if c >= 8 {
        assert(!(exists|cc: int|
            c <= cc < 8 && #[trigger] sprite_bit(byte, cc) && grid[row][wrap_col(x0, cc, w)]));
    } else {
        let col = wrap_col(x0, c, w);
        let b = sprite_bit(byte, c);
        let hit0 = b && grid[row][col];
        let g1 = toggle_pixel(grid, row, col, b);
        lemma_mod_bound(x0 + c, w);
        assert(g1.len() == h);
        assert forall|r: int| 0 <= r < h implies (#[trigger] g1[r]).len() == w by {
            if r == row {
                assert(g1[row].len() == grid[row].len());
            }
        }
        lemma_draw_byte_pixelwise(g1, byte, row, x0, c + 1, w, h);
        let rest = draw_byte_rec(g1, byte, row, x0, c + 1, w);
        assert(pass == (rest.0, hit0 || rest.1));
        assert forall|cc: int| c < cc < 8 implies #[trigger] wrap_col(x0, cc, w) != col by {
            lemma_mod_distinct(x0 + c, cc - c, w);
        }
        // Rows other than `row` are never touched.
        assert forall|r: int| 0 <= r < h && r != row implies pass.0[r] =~= grid[r] by {
            assert(g1[r] == grid[r]);
            assert(rest.0[r] == g1[r]);
        }
        // The eight target cells.
        assert forall|cc: int|
            c <= cc < 8 implies pass.0[row][#[trigger] wrap_col(x0, cc, w)] == (grid[row][wrap_col(
            x0,
            cc,
            w,
        )] != sprite_bit(byte, cc)) by {
            if cc == c {
                assert(forall|cc2: int|
                    c + 1 <= cc2 < 8 ==> #[trigger] wrap_col(x0, cc2, w) != col);
                assert(rest.0[row][col] == g1[row][col]);
                assert(g1[row][col] == (grid[row][col] != b));
            } else {
                assert(g1[row][wrap_col(x0, cc, w)] == grid[row][wrap_col(x0, cc, w)]);
            }
        }
        // Cells in this row that no bit targets.
        assert forall|j: int|
            0 <= j < w && (forall|cc: int|
                c <= cc < 8 ==> #[trigger] wrap_col(x0, cc, w) != j) implies pass.0[row][j]
            == grid[row][j] by {
            assert(wrap_col(x0, c, w) != j);
            assert(g1[row][j] == grid[row][j]);
        }
        // The collision flag, in both directions.
        if pass.1 {
            if hit0 {
                assert(c <= c < 8 && sprite_bit(byte, c) && grid[row][wrap_col(x0, c, w)]);
            } else {
                let cc = choose|cc: int|
                    c + 1 <= cc < 8 && #[trigger] sprite_bit(byte, cc) && g1[row][wrap_col(
                        x0,
                        cc,
                        w,
                    )];
                assert(g1[row][wrap_col(x0, cc, w)] == grid[row][wrap_col(x0, cc, w)]);
                assert(c <= cc < 8 && sprite_bit(byte, cc) && grid[row][wrap_col(x0, cc, w)]);
            }
        }
        if exists|cc: int|
            c <= cc < 8 && #[trigger] sprite_bit(byte, cc) && grid[row][wrap_col(x0, cc, w)] {
            let cc = choose|cc: int|
                c <= cc < 8 && #[trigger] sprite_bit(byte, cc) && grid[row][wrap_col(x0, cc, w)];
            if cc == c {
                assert(hit0);
            } else {
                assert(g1[row][wrap_col(x0, cc, w)] == grid[row][wrap_col(x0, cc, w)]);
                assert(c + 1 <= cc < 8 && sprite_bit(byte, cc) && g1[row][wrap_col(x0, cc, w)]);
                assert(rest.1);
            }
            assert(pass.1);
        }
    }
}

/// What a whole sprite does to the grid, cell by cell, when the grid is at
/// least eight columns wide and at least as high as the sprite: each sprite
/// bit XORs exactly its own target cell, everything else keeps its value,
/// and the collision flag is set exactly when some lit bit meets a lit
/// cell.
pub proof fn lemma_draw_pixelwise(
    grid: Seq<Seq<bool>>,
    sprite: Seq<u8>,
    x0: int,
    y0: int,
    r0: int,
    w: int,
    h: int,
)
    requires
        grid.len() == h,
        forall|r: int| 0 <= r < h ==> (#[trigger] grid[r]).len() == w,
        8 <= w,
        sprite.len() <= h,
        0 <= r0 <= sprite.len(),
        x0 >= 0,
        y0 >= 0,
    ensures
        ({
            let pass = draw_rec(grid, sprite, x0, y0, r0, w, h);
            let n = sprite.len() as int;
            &&& pass.0.len() == h
            &&& forall|r: int| 0 <= r < h ==> (#[trigger] pass.0[r]).len() == w
            &&& forall|rr: int, cc: int|
                r0 <= rr < n && 0 <= cc < 8 ==> pass.0[#[trigger] wrap_row(y0, rr, h)][#[trigger] wrap_col(
                    x0,
                    cc,
                    w,
                )] == (grid[wrap_row(y0, rr, h)][wrap_col(x0, cc, w)] != sprite_bit(
                    sprite[rr],
                    cc,
                ))
            &&& forall|i: int|
                0 <= i < h && (forall|rr: int|
                    r0 <= rr < n ==> #[trigger] wrap_row(y0, rr, h) != i) ==> pass.0[i] == grid[i]
            &&& forall|rr: int, j: int|
                #![trigger grid[wrap_row(y0, rr, h)][j]]
                r0 <= rr < n && 0 <= j < w && (forall|cc: int|
                    0 <= cc < 8 ==> #[trigger] wrap_col(x0, cc, w) != j) ==> pass.0[wrap_row(
                    y0,
                    rr,
                    h,
                )][j] == grid[wrap_row(y0, rr, h)][j]
            &&& pass.1 == exists|rr: int, cc: int|
                r0 <= rr < n && 0 <= cc < 8 && #[trigger] sprite_bit(sprite[rr], cc)
                    && grid[wrap_row(y0, rr, h)][#[trigger] wrap_col(x0, cc, w)]
        }),
    decreases sprite.len() - r0,
{
    let pass = draw_rec(grid, sprite, x0, y0, r0, w, h);
    let n = sprite.len() as int;
    if r0 >= n {
        assert(!(exists|rr: int, cc: int|
            r0 <= rr < n && 0 <= cc < 8 && #[trigger] sprite_bit(sprite[rr], cc)
                && grid[wrap_row(y0, rr, h)][#[trigger] wrap_col(x0, cc, w)]));
    } else {
        let row = wrap_row(y0, r0, h);
        lemma_mod_bound(y0 + r0, h);
        lemma_draw_byte_pixelwise(grid, sprite[r0], row, x0, 0, w, h);
        let bp = draw_byte_rec(grid, sprite[r0], row, x0, 0, w);
        let g1 = bp.0;
        lemma_draw_pixelwise(g1, sprite, x0, y0, r0 + 1, w, h);
        let rest = draw_rec(g1, sprite, x0, y0, r0 + 1, w, h);
        assert(pass == (rest.0, bp.1 || rest.1));
        assert forall|rr: int| r0 < rr < n implies #[trigger] wrap_row(y0, rr, h) != row by {
            lemma_mod_distinct(y0 + r0, rr - r0, h);
        }
        // Target cells of each sprite row.
        assert forall|rr: int, cc: int|
            r0 <= rr < n && 0 <= cc < 8 implies pass.0[#[trigger] wrap_row(y0, rr, h)][
            #[trigger] wrap_col(x0, cc, w)] == (grid[wrap_row(y0, rr, h)][wrap_col(x0, cc, w)]
            != sprite_bit(sprite[rr], cc)) by {
            if rr == r0 {
                assert(forall|rr2: int|
                    r0 + 1 <= rr2 < n ==> #[trigger] wrap_row(y0, rr2, h) != row);
                assert(rest.0[row] == g1[row]);
            } else {
                assert(g1[wrap_row(y0, rr, h)] == grid[wrap_row(y0, rr, h)]);
            }
        }
        // Rows no sprite row lands on.
        assert forall|i: int|
            0 <= i < h && (forall|rr: int|
                r0 <= rr < n ==> #[trigger] wrap_row(y0, rr, h) != i) implies pass.0[i]
            == grid[i] by {
            assert(wrap_row(y0, r0, h) != i);
            assert(g1[i] == grid[i]);
        }
        // Columns no sprite bit lands on, within touched rows.
        assert forall|rr: int, j: int|
            #![trigger grid[wrap_row(y0, rr, h)][j]]
            r0 <= rr < n && 0 <= j < w && (forall|cc: int|
                0 <= cc < 8 ==> #[trigger] wrap_col(x0, cc, w) != j) implies pass.0[wrap_row(
            y0,
            rr,
            h,
        )][j] == grid[wrap_row(y0, rr, h)][j] by {
            if rr == r0 {
                assert(forall|rr2: int|
                    r0 + 1 <= rr2 < n ==> #[trigger] wrap_row(y0, rr2, h) != row);
                assert(rest.0[row] == g1[row]);
                assert(g1[row][j] == grid[row][j]);
            } else {
                assert(g1[wrap_row(y0, rr, h)] == grid[wrap_row(y0, rr, h)]);
            }
        }
        // The collision flag, in both directions.
        if pass.1 {
            if bp.1 {
                let cc = choose|cc: int|
                    0 <= cc < 8 && #[trigger] sprite_bit(sprite[r0], cc) && grid[row][wrap_col(
                        x0,
                        cc,
                        w,
                    )];
                assert(r0 <= r0 < n && 0 <= cc < 8 && sprite_bit(sprite[r0], cc)
                    && grid[wrap_row(y0, r0, h)][wrap_col(x0, cc, w)]);
            } else {
                let (rr, cc) = choose|rr: int, cc: int|
                    r0 + 1 <= rr < n && 0 <= cc < 8 && #[trigger] sprite_bit(sprite[rr], cc)
                        && g1[wrap_row(y0, rr, h)][#[trigger] wrap_col(x0, cc, w)];
                assert(g1[wrap_row(y0, rr, h)] == grid[wrap_row(y0, rr, h)]);
                assert(r0 <= rr < n && 0 <= cc < 8 && sprite_bit(sprite[rr], cc)
                    && grid[wrap_row(y0, rr, h)][wrap_col(x0, cc, w)]);
            }
        }
        if exists|rr: int, cc: int|
            r0 <= rr < n && 0 <= cc < 8 && #[trigger] sprite_bit(sprite[rr], cc)
                && grid[wrap_row(y0, rr, h)][#[trigger] wrap_col(x0, cc, w)] {
            let (rr, cc) = choose|rr: int, cc: int|
                r0 <= rr < n && 0 <= cc < 8 && #[trigger] sprite_bit(sprite[rr], cc)
                    && grid[wrap_row(y0, rr, h)][#[trigger] wrap_col(x0, cc, w)];
            if rr == r0 {
                assert(sprite_bit(sprite[r0], cc) && grid[row][wrap_col(x0, cc, w)]);
                assert(bp.1);
            } else {
                assert(g1[wrap_row(y0, rr, h)] == grid[wrap_row(y0, rr, h)]);
                assert(r0 + 1 <= rr < n && 0 <= cc < 8 && sprite_bit(sprite[rr], cc)
                    && g1[wrap_row(y0, rr, h)][wrap_col(x0, cc, w)]);
                assert(rest.1);
            }
            assert(pass.1);
        }
    }
}

/// Drawing the same sprite twice at the same position restores every pixel:
/// each target cell is XORed twice with the same bit, every other cell is
/// never touched. Holds on a grid at least eight columns wide and at least
/// as high as the sprite, where no two sprite bits share a target cell.
pub proof fn lemma_draw_twice_restores(
    grid: Seq<Seq<bool>>,
    sprite: Seq<u8>,
    x0: int,
    y0: int,
    w: int,
    h: int,
)
    requires
        grid.len() == h,
        forall|r: int| 0 <= r < h ==> (#[trigger] grid[r]).len() == w,
        8 <= w,
        sprite.len() <= h,
        x0 >= 0,
        y0 >= 0,
    ensures
        draw_rec(draw_rec(grid, sprite, x0, y0, 0, w, h).0, sprite, x0, y0, 0, w, h).0 == grid,
{
    let n = sprite.len() as int;
    let g1 = draw_rec(grid, sprite, x0, y0, 0, w, h).0;
    lemma_draw_pixelwise(grid, sprite, x0, y0, 0, w, h);
    lemma_draw_pixelwise(g1, sprite, x0, y0, 0, w, h);
    let g2 = draw_rec(g1, sprite, x0, y0, 0, w, h).0;
    assert forall|i: int| 0 <= i < h implies g2[i] =~= grid[i] by {
        if exists|rr: int| 0 <= rr < n && #[trigger] wrap_row(y0, rr, h) == i {
            let rr = choose|rr: int| 0 <= rr < n && #[trigger] wrap_row(y0, rr, h) == i;
            assert forall|j: int| 0 <= j < w implies g2[i][j] == grid[i][j] by {
                if exists|cc: int| 0 <= cc < 8 && #[trigger] wrap_col(x0, cc, w) == j {
                    let cc = choose|cc: int| 0 <= cc < 8 && #[trigger] wrap_col(x0, cc, w) == j;
                    assert(g1[i][j] == (grid[i][j] != sprite_bit(sprite[rr], cc)));
                    assert(g2[i][j] == (g1[i][j] != sprite_bit(sprite[rr], cc)));
                } else {
                    assert(forall|cc: int| 0 <= cc < 8 ==> #[trigger] wrap_col(x0, cc, w) != j);
                    assert(g1[i][j] == grid[i][j]);
                    assert(g2[i][j] == g1[i][j]);
                }
            }
        } else {
            assert(forall|rr: int| 0 <= rr < n ==> #[trigger] wrap_row(y0, rr, h) != i);
            assert(g1[i] == grid[i]);
            assert(g2[i] == g1[i]);
        }
    }
    assert(g2 =~~= grid);
}

/// `DRW` sets `VF` to 1 exactly when a lit sprite bit lands on an
/// already-lit pixel, judged against the grid as it was before the draw.
/// Holds whenever the display is at least eight columns wide and at least
/// as high as the sprite, so that no two sprite bits share a target pixel.
pub proof fn lemma_drw_collision_flag(s: StateView, x: int, y: int, n: int)
    requires
        s.wf(),
        0 <= x < 16,
        0 <= y < 16,
        0 <= n < 16,
        8 <= s.display.width,
        n <= s.display.height,
        s.reg.i + n <= RAM_SIZE,
    ensures
        spec_drw(s, x, y, n) is Ok,
        ({
            let t = spec_drw(s, x, y, n)->Ok_0;
            (t.reg.v[15] == 1) <==> (exists|rr: int, cc: int|
                0 <= rr < n && 0 <= cc < 8 && #[trigger] sprite_bit(s.mem[s.reg.i + rr], cc)
                    && s.display.grid[wrap_row(s.reg.v[y] as int, rr, s.display.height as int)][
                    #[trigger] wrap_col(s.reg.v[x] as int, cc, s.display.width as int)])
        }),
{
    let w = s.display.width as int;
    let h = s.display.height as int;
    let i = s.reg.i as int;
    let sprite = s.mem.subrange(i, i + n);
    let x0 = s.reg.v[x] as int;
    let y0 = s.reg.v[y] as int;
    lemma_draw_pixelwise(s.display.grid, sprite, x0, y0, 0, w, h);
    let pass = draw_rec(s.display.grid, sprite, x0, y0, 0, w, h);
    let t = spec_drw(s, x, y, n)->Ok_0;
    assert(t.reg.v[15] == if pass.1 { 1u8 } else { 0u8 });
    if pass.1 {
        let (rr, cc) = choose|rr: int, cc: int|
            0 <= rr < n && 0 <= cc < 8 && #[trigger] sprite_bit(sprite[rr], cc)
                && s.display.grid[wrap_row(y0, rr, h)][#[trigger] wrap_col(x0, cc, w)];
        assert(sprite[rr] == s.mem[i + rr]);
        assert(0 <= rr < n && 0 <= cc < 8 && sprite_bit(s.mem[s.reg.i + rr], cc)
            && s.display.grid[wrap_row(y0, rr, h)][wrap_col(x0, cc, w)]);
    }
    if exists|rr: int, cc: int|
        0 <= rr < n && 0 <= cc < 8 && #[trigger] sprite_bit(s.mem[s.reg.i + rr], cc)
            && s.display.grid[wrap_row(y0, rr, h)][#[trigger] wrap_col(x0, cc, w)] {
        let (rr, cc) = choose|rr: int, cc: int|
            0 <= rr < n && 0 <= cc < 8 && #[trigger] sprite_bit(s.mem[s.reg.i + rr], cc)
                && s.display.grid[wrap_row(y0, rr, h)][#[trigger] wrap_col(x0, cc, w)];
        assert(sprite[rr] == s.mem[i + rr]);
        assert(0 <= rr < n && 0 <= cc < 8 && sprite_bit(sprite[rr], cc)
            && s.display.grid[wrap_row(y0, rr, h)][wrap_col(x0, cc, w)]);
        assert(pass.1);
    }
}

/// A draw leaves the machine well formed, keeps memory, stack, keys, the
/// dimensions and every register but `VF`, and its grid is what the draw
/// recursion prescribes.
pub proof fn lemma_drw_frame(s: StateView, x: int, y: int, n: int)
    requires
        s.wf(),
        0 <= x < 16,
        0 <= y < 16,
        0 <= n < 16,
        8 <= s.display.width,
        n <= s.display.height,
        s.reg.i + n <= RAM_SIZE,
    ensures
        spec_drw(s, x, y, n) is Ok,
        ({
            let t = spec_drw(s, x, y, n)->Ok_0;
            &&& t.wf()
            &&& t.mem == s.mem
            &&& t.stack == s.stack
            &&& t.key == s.key
            &&& t.audio == s.audio
            &&& t.display.width == s.display.width
            &&& t.display.height == s.display.height
            &&& t.reg.i == s.reg.i
            &&& t.reg.pc == s.reg.pc
            &&& t.reg.sp == s.reg.sp
            &&& forall|k: int| 0 <= k < 15 ==> t.reg.v[k] == s.reg.v[k]
        }),
{
    let w = s.display.width as int;
    let h = s.display.height as int;
    let i = s.reg.i as int;
    let sprite = s.mem.subrange(i, i + n);
    lemma_draw_pixelwise(s.display.grid, sprite, s.reg.v[x] as int, s.reg.v[y] as int, 0, w, h);
}

/// Drawing the same sprite twice at the same position clears every pixel
/// the first draw set and restores every pixel it cleared: the grid comes
/// back exactly. `x` and `y` stay below 15 so that the flag write of the
/// first draw cannot move the coordinates.
pub proof fn lemma_drw_twice_restores(s: StateView, x: int, y: int, n: int)
    requires
        s.wf(),
        0 <= x < 15,
        0 <= y < 15,
        0 <= n < 16,
        8 <= s.display.width,
        n <= s.display.height,
        s.reg.i + n <= RAM_SIZE,
    ensures
        spec_drw(s, x, y, n) is Ok,
        spec_drw(spec_drw(s, x, y, n)->Ok_0, x, y, n) is Ok,
        spec_drw(spec_drw(s, x, y, n)->Ok_0, x, y, n)->Ok_0.display.grid == s.display.grid,
{
    let w = s.display.width as int;
    let h = s.display.height as int;
    let i = s.reg.i as int;
    let sprite = s.mem.subrange(i, i + n);
    let x0 = s.reg.v[x] as int;
    let y0 = s.reg.v[y] as int;
    lemma_drw_frame(s, x, y, n);
    let t = spec_drw(s, x, y, n)->Ok_0;
    assert(t.mem.subrange(i, i + n) == sprite);
    assert(t.reg.v[x] == s.reg.v[x]);
    assert(t.reg.v[y] == s.reg.v[y]);
    lemma_draw_twice_restores(s.display.grid, sprite, x0, y0, w, h);
}

/// When the first draw leaves some target pixel of a lit sprite bit lit,
/// drawing the same sprite again at the same position reports a collision:
/// `VF` is 1 after the second draw.
pub proof fn lemma_drw_second_draw_collides(s: StateView, x: int, y: int, n: int)
    requires
        s.wf(),
        0 <= x < 15,
        0 <= y < 15,
        0 <= n < 16,
        8 <= s.display.width,
        n <= s.display.height,
        s.reg.i + n <= RAM_SIZE,
        ({
            let t = spec_drw(s, x, y, n)->Ok_0;
            exists|rr: int, cc: int|
                0 <= rr < n && 0 <= cc < 8 && #[trigger] sprite_bit(s.mem[s.reg.i + rr], cc)
                    && t.display.grid[wrap_row(s.reg.v[y] as int, rr, s.display.height as int)][
                    #[trigger] wrap_col(s.reg.v[x] as int, cc, s.display.width as int)]
        }),
    ensures
        spec_drw(spec_drw(s, x, y, n)->Ok_0, x, y, n) is Ok,
        spec_drw(spec_drw(s, x, y, n)->Ok_0, x, y, n)->Ok_0.reg.v[15] == 1,
{
    lemma_drw_frame(s, x, y, n);
    let t = spec_drw(s, x, y, n)->Ok_0;
    lemma_drw_collision_flag(t, x, y, n);
    let (rr, cc) = choose|rr: int, cc: int|
        0 <= rr < n && 0 <= cc < 8 && #[trigger] sprite_bit(s.mem[s.reg.i + rr], cc)
            && t.display.grid[wrap_row(s.reg.v[y] as int, rr, s.display.height as int)][
            #[trigger] wrap_col(s.reg.v[x] as int, cc, s.display.width as int)];
    assert(t.mem == s.mem && t.reg.i == s.reg.i);
    assert(t.reg.v[x] == s.reg.v[x] && t.reg.v[y] == s.reg.v[y]);
    assert(0 <= rr < n && 0 <= cc < 8 && sprite_bit(t.mem[t.reg.i + rr], cc)
        && t.display.grid[wrap_row(t.reg.v[y] as int, rr, t.display.height as int)][wrap_col(
        t.reg.v[x] as int,
        cc,
        t.display.width as int,
    )]);
}

/// A `CALL` immediately followed by a `RET` comes back: the program
/// counter lands on the instruction after the call, and the stack pointer
/// returns to its pre-call value.
pub proof fn lemma_call_ret_round_trip(s0: StateView, nnn: u16, r0: u8, r1: u8)
    requires
        s0.wf(),
        spec_step(s0, r0) is Ok,
        spec_decode(spec_fetch(s0)) == Some(Instruction::Call(nnn)),
        spec_step(spec_step(s0, r0)->Ok_0, r1) is Ok,
        spec_decode(spec_fetch(spec_step(s0, r0)->Ok_0)) == Some(Instruction::Ret),
    ensures
        ({
            let s2 = spec_step(spec_step(s0, r0)->Ok_0, r1)->Ok_0;
            &&& s2.reg.pc == s0.reg.pc + 2
            &&& s2.reg.sp == s0.reg.sp
        }),
{
    let s1 = spec_step(s0, r0)->Ok_0;
    assert(s1.reg.sp == s0.reg.sp + 1);
    assert(s1.stack[s1.reg.sp as int] == s0.reg.pc + 2);
    let s2 = spec_step(s1, r1)->Ok_0;
    assert(s2.reg.pc == s1.stack[s1.reg.sp as int]);
    assert(s2.reg.sp == s1.reg.sp - 1);
}

} // verus!
