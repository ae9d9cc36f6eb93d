//! The monochrome display: a grid of booleans with toroidal topology.
//! Sprites are drawn by XOR-toggling pixels; coordinates wrap at the edges.
use vstd::prelude::*;

verus! {

/// The mathematical shape of the display: its dimensions and the grid of
/// lit pixels, row-major.
#[verifier::ext_equal]
pub ghost struct DisplayView {
    pub width: nat,
    pub height: nat,
    pub grid: Seq<Seq<bool>>,
}

impl DisplayView {
    /// Non-degenerate dimensions and a rectangular grid of exactly that size.
    pub open spec fn wf(self) -> bool {
        &&& self.width >= 1
        &&& self.height >= 1
        &&& self.grid.len() == self.height
        &&& forall|r: int|
            0 <= r < self.grid.len() ==> (#[trigger] self.grid[r]).len() == self.width
    }
}

/// An all-unlit grid of the given dimensions.
pub open spec fn blank_grid(w: nat, h: nat) -> Seq<Seq<bool>> {
    Seq::new(h, |r: int| Seq::new(w, |c: int| false))
}

/// Bit `c` of a sprite byte, counted from the most significant bit: bit 0 is
/// the leftmost pixel of the sprite row.
pub open spec fn sprite_bit(byte: u8, c: int) -> bool
    recommends
        0 <= c < 8,
{
    byte & (0x80u8 >> (c as u8)) != 0
}

/// The grid column that sprite column `cc` lands on when drawing starts at
/// unwrapped column `x0` on a grid `w` wide.
pub open spec fn wrap_col(x0: int, cc: int, w: int) -> int {
    (x0 + cc) % w
}

/// The grid row that sprite row `rr` lands on when drawing starts at
/// unwrapped row `y0` on a grid `h` high.
pub open spec fn wrap_row(y0: int, rr: int, h: int) -> int {
    (y0 + rr) % h
}

/// XOR the bit `b` into the grid cell at row `r`, column `c`.
pub open spec fn toggle_pixel(grid: Seq<Seq<bool>>, r: int, c: int, b: bool) -> Seq<Seq<bool>> {
    grid.update(r, grid[r].update(c, grid[r][c] != b))
}

/// Draw bits `c..8` of one sprite byte into row `row` (already wrapped),
/// starting at unwrapped column `x0 + c`; columns wrap modulo `w`. Returns
/// the new grid and whether any lit sprite bit met an already-lit pixel.
pub open spec fn draw_byte_rec(
    grid: Seq<Seq<bool>>,
    byte: u8,
    row: int,
    x0: int,
    c: int,
    w: int,
) -> (Seq<Seq<bool>>, bool)
    decreases 8 - c,
{
    if c < 0 || c >= 8 {
        (grid, false)
    } else {
        let col = wrap_col(x0, c, w);
        let b = sprite_bit(byte, c);
        let hit = b && grid[row][col];
        let rest = draw_byte_rec(toggle_pixel(grid, row, col, b), byte, row, x0, c + 1, w);
        (rest.0, hit || rest.1)
    }
}

/// Draw sprite rows `r..` into the grid: row `r` of the sprite lands on grid
/// row `(y0 + r) % h`, starting at column `x0` and wrapping modulo `w`.
/// Returns the new grid and the collision flag of the whole draw.
pub open spec fn draw_rec(
    grid: Seq<Seq<bool>>,
    sprite: Seq<u8>,
    x0: int,
    y0: int,
    r: int,
    w: int,
    h: int,
) -> (Seq<Seq<bool>>, bool)
    decreases sprite.len() - r,
{
    if r < 0 || r >= sprite.len() {
        (grid, false)
    } else {
        let byte_pass = draw_byte_rec(grid, sprite[r], wrap_row(y0, r, h), x0, 0, w);
        let rest = draw_rec(byte_pass.0, sprite, x0, y0, r + 1, w, h);
        (rest.0, byte_pass.1 || rest.1)
    }
}

/// The display buffer. Dimensions are fixed at construction; the grid is
/// kept rectangular.
pub struct Display {
    /// Width in pixels.
    pub width: usize,
    /// Height in pixels.
    pub height: usize,
    buffer: Vec<Vec<bool>>,
}

impl View for Display {
    type V = DisplayView;

    closed spec fn view(&self) -> DisplayView {
        DisplayView {
            width: self.width as nat,
            height: self.height as nat,
            grid: Seq::new(self.buffer@.len(), |r: int| self.buffer@[r]@),
        }
    }
}

/// One all-false row of the given width.
fn blank_row(width: usize) -> (row: Vec<bool>)
    ensures
        row@ == Seq::new(width as nat, |c: int| false),
{
    let mut row: Vec<bool> = Vec::new();
    let mut c: usize = 0;
    while c < width
        invariant
            c <= width,
            row@ == Seq::new(c as nat, |k: int| false),
        decreases width - c,
    {
        row.push(false);
        c = c + 1;
        proof {
            assert(row@ =~= Seq::new(c as nat, |k: int| false));
        }
    }
    row
}

/// An all-false buffer of the given dimensions.
fn blank_buffer(width: usize, height: usize) -> (buf: Vec<Vec<bool>>)
    ensures
        buf@.len() == height,
        Seq::new(buf@.len(), |r: int| buf@[r]@) == blank_grid(width as nat, height as nat),
{
    let mut buf: Vec<Vec<bool>> = Vec::new();
    let mut r: usize = 0;
    while r < height
        invariant
            r <= height,
            buf@.len() == r,
            forall|k: int|
                0 <= k < r ==> (#[trigger] buf@[k])@ == Seq::new(width as nat, |c: int| false),
        decreases height - r,
    {
        let row = blank_row(width);
        buf.push(row);
        r = r + 1;
    }
    proof {
        assert(Seq::new(buf@.len(), |k: int| buf@[k]@) =~~= blank_grid(
            width as nat,
            height as nat,
        ));
    }
    buf
}

impl Display {
    /// A fresh display of the given dimensions, all pixels unlit.
    pub fn new(width: usize, height: usize) -> (d: Display)
        requires
            width >= 1,
            height >= 1,
        ensures
            d@.wf(),
            d@.width == width as nat,
            d@.height == height as nat,
            d@.grid == blank_grid(width as nat, height as nat),
    {
        let buffer = blank_buffer(width, height);
        Display { width, height, buffer }
    }

    /// Clear the whole grid; dimensions stay.
    pub fn cls(&mut self)
        ensures
            final(self)@ == (DisplayView {
                grid: blank_grid(old(self)@.width, old(self)@.height),
                ..old(self)@
            }),
    {
        self.buffer = blank_buffer(self.width, self.height);
    }

    /// The width the display was built with.
    pub fn width(&self) -> (w: usize)
        ensures
            w as nat == self@.width,
    {
        self.width
    }

    /// The height the display was built with.
    pub fn height(&self) -> (h: usize)
        ensures
            h as nat == self@.height,
    {
        self.height
    }

    /// Read the pixel at the given in-range coordinates.
    pub fn get(&self, row: usize, col: usize) -> (lit: bool)
        requires
            self@.wf(),
            row < self@.height,
            col < self@.width,
        ensures
            lit == self@.grid[row as int][col as int],
    {
        proof {
            assert(self@.grid[row as int] == self.buffer@[row as int]@);
        }
        self.buffer[row][col]
    }

    /// XOR `update` into the pixel at `(row, col)`; both coordinates wrap
    /// around the edges. Returns whether the pixel's prior value differed
    /// from `update`.
    pub fn pixel(&mut self, row: usize, col: usize, update: bool) -> (overridden: bool)
        requires
            old(self)@.wf(),
        ensures
            final(self)@.wf(),
            final(self)@.width == old(self)@.width,
            final(self)@.height == old(self)@.height,
            final(self)@.grid == toggle_pixel(
                old(self)@.grid,
                row as int % old(self)@.height as int,
                col as int % old(self)@.width as int,
                update,
            ),
            overridden == (old(self)@.grid[row as int % old(self)@.height as int][col as int
                % old(self)@.width as int] != update),
    {
        let r: usize = row % self.height;
        let c: usize = col % self.width;
        proof {
            assert(self@.grid.len() == self.buffer@.len());
            assert(self@.grid[r as int] == self.buffer@[r as int]@);
            assert(self.buffer@[r as int]@.len() == self@.width);
        }
        let prior: bool = self.buffer[r][c];
        self.buffer[r][c] = prior ^ update;
        proof {
            assert(self@.grid =~~= toggle_pixel(old(self)@.grid, r as int, c as int, update));
        }
        prior != update
    }
}

} // verus!
