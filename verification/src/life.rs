//! A bounded Game-of-Life grid: cells survive with two or three live
//! neighbours, are born with exactly three, and die otherwise.  Neighbour
//! counts are clipped at the grid edge (no wraparound), and each step is
//! computed against a snapshot of the previous generation.

use vstd::arithmetic::div_mod::lemma_fundamental_div_mod_converse;
use vstd::prelude::*;

verus! {

/// Relies on macroquad::rand::gen_range (quad_rand): a 32-bit draw scaled
/// by `n * (rand() / 2^32)` in f64 and truncated.  With a zero lower bound
/// the scaled value stays strictly below `n` (the true product is at least
/// `n * 2^-32` below `n`, more than half an f64 unit in the last place), so
/// the result lies in [0, n); the call never panics.
#[verifier::external_body]
fn random_below(n: i32) -> (r: i32)
    requires
        1 <= n,
    ensures
        0 <= r < n,
{
    macroquad::rand::gen_range(0, n)
}

/// One cell state per random draw: a cell comes up live exactly when its
/// draw is zero.
pub fn cells_from_draws(draws: &Vec<i32>) -> (r: Vec<bool>)
    ensures
        r@.len() == draws@.len(),
        forall|k: int| 0 <= k < draws@.len() ==> r@[k] == (draws@[k] == 0),
{
    let n = draws.len();
    let mut cells: Vec<bool> = Vec::new();
    let mut i: usize = 0;
    while i < n
        invariant
            i <= n,
            n == draws@.len(),
            cells@.len() == i,
            forall|k: int| 0 <= k < i ==> cells@[k] == (draws@[k] == 0),
        decreases n - i,
    {
        cells.push(draws[i] == 0);
        i += 1;
    }
    cells
}

/// One when the cell is live, zero otherwise.
pub open spec fn live_as_count(b: bool) -> int {
    if b {
        1
    } else {
        0
    }
}

/// The standard rule: a live cell survives with two or three live
/// neighbours; a dead cell becomes live with exactly three.
pub open spec fn spec_life_rule(alive: bool, n: int) -> bool {
    if alive {
        2 <= n <= 3
    } else {
        n == 3
    }
}

/// A grid cell index lies inside the backing vector.
proof fn lemma_grid_index(w: int, h: int, x: int, y: int)
    requires
        0 <= x < w,
        0 <= y < h,
    ensures
        0 <= y * w + x < w * h,
{
    assert(y * w + x < w * h) by (nonlinear_arith)
        requires
            0 <= x < w,
            0 <= y < h,
    ;
}

/// A flat cell index determines its coordinates.
proof fn lemma_grid_index_coords(w: int, x: int, y: int)
    requires
        0 <= x < w,
        0 <= y,
    ensures
        (y * w + x) / w == y,
        (y * w + x) % w == x,
{
    lemma_fundamental_div_mod_converse(y * w + x, w, y, x);
}

/// The automaton grid, stored row-major in a flat vector.
pub struct CellMatrix {
    pub width: u16,
    pub height: u16,
    pub cell_size: u16,
    pub cells: Vec<bool>,
}

impl CellMatrix {
    /// A positive cell size and a backing vector of exactly one entry per
    /// grid cell.
    pub open spec fn wf(self) -> bool {
        &&& 1 <= self.cell_size
        &&& self.cells@.len() == (self.width as int) * (self.height as int)
    }

    /// Whether a coordinate pair lies on the grid.
    pub open spec fn in_grid(self, x: int, y: int) -> bool {
        0 <= x < self.width && 0 <= y < self.height
    }

    /// The cell at `(x, y)`, row-major.
    pub open spec fn spec_alive(self, x: int, y: int) -> bool {
        self.cells@[y * (self.width as int) + x]
    }

    /// The cell at `(x, y)`, reading positions off the grid as dead.
    pub open spec fn spec_alive_clipped(self, x: int, y: int) -> bool {
        self.in_grid(x, y) && self.spec_alive(x, y)
    }

    /// Number of live cells among the eight neighbours, clipped at the
    /// grid edge.
    pub open spec fn spec_neighbor_count(self, x: int, y: int) -> int {
        live_as_count(self.spec_alive_clipped(x - 1, y - 1)) + live_as_count(
            self.spec_alive_clipped(x, y - 1),
        ) + live_as_count(self.spec_alive_clipped(x + 1, y - 1)) + live_as_count(
            self.spec_alive_clipped(x - 1, y),
        ) + live_as_count(self.spec_alive_clipped(x + 1, y)) + live_as_count(
            self.spec_alive_clipped(x - 1, y + 1),
        ) + live_as_count(self.spec_alive_clipped(x, y + 1)) + live_as_count(
            self.spec_alive_clipped(x + 1, y + 1),
        )
    }

    /// An all-dead grid of `width` by `height` cells.
    pub fn new(width: u16, height: u16, cell_size: u16) -> (r: CellMatrix)
        requires
            1 <= cell_size,
        ensures
            r.wf(),
            r.width == width,
            r.height == height,
            r.cell_size == cell_size,
            forall|x: int, y: int| r.in_grid(x, y) ==> !r.spec_alive(x, y),
    {
        proof {
            assert((width as int) * (height as int) <= 0xFFFF_FFFFint) by (nonlinear_arith)
                requires
                    width <= 0xFFFF,
                    height <= 0xFFFF,
            ;
        }
        let n: usize = (width as usize) * (height as usize);
        let mut cells: Vec<bool> = Vec::new();
        let mut i: usize = 0;
        while i < n
            invariant
                i <= n,
                cells@.len() == i,
                forall|k: int| 0 <= k < i ==> !cells@[k],
            decreases n - i,
        {
            cells.push(false);
            i += 1;
        }
        let r = CellMatrix { width, height, cell_size, cells };
        proof {
            assert forall|x: int, y: int| r.in_grid(x, y) implies !r.spec_alive(x, y) by {
                lemma_grid_index(width as int, height as int, x, y);
            }
        }
        r
    }

    /// Flat index of the cell at `(x, y)`.
    fn ind_for_pos(&self, x: u16, y: u16) -> (r: usize)
        requires
            self.wf(),
            self.in_grid(x as int, y as int),
        ensures
            r == (y as int) * (self.width as int) + (x as int),
            r < self.cells@.len(),
    {
        proof {
            lemma_grid_index(self.width as int, self.height as int, x as int, y as int);
            assert((y as int) * (self.width as int) + (x as int) <= 0xFFFF_FFFFint)
                by (nonlinear_arith)
                requires
                    0 <= x <= 0xFFFF,
                    0 <= y <= 0xFFFF,
                    self.width <= 0xFFFF,
            ;
        }
        (y as usize) * (self.width as usize) + (x as usize)
    }

    /// Read one cell.
    pub fn cell_is_alive(&self, x: u16, y: u16) -> (r: bool)
        requires
            self.wf(),
            self.in_grid(x as int, y as int),
        ensures
            r == self.spec_alive(x as int, y as int),
    {
        let ind = self.ind_for_pos(x, y);
        self.cells[ind]
    }

    /// The cell under a screen point: plain integer division.
    fn cell_pos_for_click(&self, px: u32, py: u32) -> (r: (u32, u32))
        requires
            1 <= self.cell_size,
        ensures
            r.0 == px as int / self.cell_size as int,
            r.1 == py as int / self.cell_size as int,
    {
        (px / (self.cell_size as u32), py / (self.cell_size as u32))
    }

    /// Flip the cell under a click; a click outside the grid leaves the
    /// grid exactly as it was.
    pub fn flip_cell(&mut self, px: u32, py: u32) -> (r: bool)
        requires
            old(self).wf(),
        ensures
            final(self).wf(),
            final(self).width == old(self).width,
            final(self).height == old(self).height,
            final(self).cell_size == old(self).cell_size,
            ({
                let cx = px as int / old(self).cell_size as int;
                let cy = py as int / old(self).cell_size as int;
                if old(self).in_grid(cx, cy) {
                    &&& r == true
                    &&& final(self).spec_alive(cx, cy) == !old(self).spec_alive(cx, cy)
                    &&& forall|x2: int, y2: int|
                        old(self).in_grid(x2, y2) && !(x2 == cx && y2 == cy)
                            ==> final(self).spec_alive(x2, y2) == old(self).spec_alive(x2, y2)
                } else {
                    &&& r == false
                    &&& *final(self) == *old(self)
                }
            }),
    {
        let pos = self.cell_pos_for_click(px, py);
        if pos.0 < self.width as u32 && pos.1 < self.height as u32 {
            let x = pos.0 as u16;
            let y = pos.1 as u16;
            let ind = self.ind_for_pos(x, y);
            let was = self.cells[ind];
            self.cells[ind] = !was;
            proof {
                let w = old(self).width as int;
                let h = old(self).height as int;
                assert forall|x2: int, y2: int|
                    old(self).in_grid(x2, y2) && !(x2 == x as int && y2 == y as int)
                    implies self.spec_alive(x2, y2) == old(self).spec_alive(x2, y2) by {
                    lemma_grid_index(w, h, x2, y2);
                    if y2 * w + x2 == (y as int) * w + (x as int) {
                        lemma_grid_index_coords(w, x2, y2);
                        lemma_grid_index_coords(w, x as int, y as int);
                    }
                }
            }
            true
        } else {
            false
        }
    }

    /// Redraw every cell at random, live with odds of one in `denom`: each
    /// cell is overwritten from a fresh draw in [0, denom), live exactly
    /// when the draw is zero.  With unit odds every draw is zero, so every
    /// cell must come up live.
    pub fn randomize(&mut self, denom: i32)
        requires
            old(self).wf(),
            1 <= denom,
        ensures
            final(self).wf(),
            final(self).width == old(self).width,
            final(self).height == old(self).height,
            final(self).cell_size == old(self).cell_size,
            denom == 1 ==> forall|x: int, y: int|
                final(self).in_grid(x, y) ==> final(self).spec_alive(x, y),
    {
        let n = self.cells.len();
        let mut draws: Vec<i32> = Vec::new();
        let mut i: usize = 0;
        while i < n
            invariant
                i <= n,
                draws@.len() == i,
                1 <= denom,
                forall|k: int| 0 <= k < i ==> 0 <= #[trigger] draws@[k] < denom,
            decreases n - i,
        {
            draws.push(random_below(denom));
            i += 1;
        }
        self.cells = cells_from_draws(&draws);
        proof {
            if denom == 1 {
                assert forall|x: int, y: int|
                    self.in_grid(x, y) implies self.spec_alive(x, y) by {
                    lemma_grid_index(self.width as int, self.height as int, x, y);
                }
            }
        }
    }

    /// Count the live neighbours of one cell, reading off-grid positions
    /// as dead.
    fn count_neighbors(&self, x: u16, y: u16) -> (n: u8)
        requires
            self.wf(),
            self.in_grid(x as int, y as int),
        ensures
            n as int == self.spec_neighbor_count(x as int, y as int),
    {
        let mut n: u8 = 0;
        if x > 0 && y > 0 && self.cell_is_alive(x - 1, y - 1) {
            n += 1;
        }
        if y > 0 && self.cell_is_alive(x, y - 1) {
            n += 1;
        }
        if x + 1 < self.width && y > 0 && self.cell_is_alive(x + 1, y - 1) {
            n += 1;
        }
        if x > 0 && self.cell_is_alive(x - 1, y) {
            n += 1;
        }
        if x + 1 < self.width && self.cell_is_alive(x + 1, y) {
            n += 1;
        }
        if x > 0 && y + 1 < self.height && self.cell_is_alive(x - 1, y + 1) {
            n += 1;
        }
        if y + 1 < self.height && self.cell_is_alive(x, y + 1) {
            n += 1;
        }
        if x + 1 < self.width && y + 1 < self.height && self.cell_is_alive(x + 1, y + 1) {
            n += 1;
        }
        n
    }

    /// Advance the whole grid one generation, against a snapshot of the
    /// current one.
    pub fn step(&mut self)
        requires
            old(self).wf(),
        ensures
            final(self).wf(),
            final(self).width == old(self).width,
            final(self).height == old(self).height,
            final(self).cell_size == old(self).cell_size,
            forall|x: int, y: int|
                old(self).in_grid(x, y) ==> final(self).spec_alive(x, y) == spec_life_rule(
                    old(self).spec_alive(x, y),
                    old(self).spec_neighbor_count(x, y),
                ),
    {
        let w = self.width;
        let h = self.height;
        let mut buffer: Vec<bool> = Vec::new();
        let mut y: u16 = 0;
        while y < h
            invariant
                self.wf(),
                w == self.width,
                h == self.height,
                y <= h,
                buffer@.len() == (y as int) * (w as int),
                forall|k: int|
                    0 <= k < buffer@.len() ==> buffer@[k] == spec_life_rule(
                        self.spec_alive(k % (w as int), k / (w as int)),
                        self.spec_neighbor_count(k % (w as int), k / (w as int)),
                    ),
            decreases h - y,
        {
            let mut x: u16 = 0;
            while x < w
                invariant
                    self.wf(),
                    w == self.width,
                    h == self.height,
                    y < h,
                    x <= w,
                    buffer@.len() == (y as int) * (w as int) + (x as int),
                    forall|k: int|
                        0 <= k < buffer@.len() ==> buffer@[k] == spec_life_rule(
                            self.spec_alive(k % (w as int), k / (w as int)),
                            self.spec_neighbor_count(k % (w as int), k / (w as int)),
                        ),
                decreases w - x,
            {
                let alive = self.cell_is_alive(x, y);
                let n = self.count_neighbors(x, y);
                let next = if alive {
                    n == 2 || n == 3
                } else {
                    n == 3
                };
                proof {
                    lemma_grid_index(w as int, h as int, x as int, y as int);
                    lemma_grid_index_coords(w as int, x as int, y as int);
                }
                buffer.push(next);
                x += 1;
            }
            proof {
                assert(((y as int) + 1) * (w as int) == (y as int) * (w as int) + (w as int))
                    by (nonlinear_arith);
            }
            y += 1;
        }
        proof {
            assert(buffer@.len() == (h as int) * (w as int));
        }
        self.cells = buffer;
        proof {
            let w0 = old(self).width as int;
            let h0 = old(self).height as int;
            assert(self.cells@.len() == w0 * h0) by (nonlinear_arith)
                requires
                    self.cells@.len() == h0 * w0,
            ;
            assert forall|x: int, y: int| old(self).in_grid(x, y) implies self.spec_alive(x, y)
                == spec_life_rule(
                old(self).spec_alive(x, y),
                old(self).spec_neighbor_count(x, y),
            ) by {
                lemma_grid_index(w0, h0, x, y);
                lemma_grid_index_coords(w0, x, y);
            }
        }
    }
}

} // verus!
