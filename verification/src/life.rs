//! The Game of Life engine: a toroidal cell grid with a synchronous
//! generational step.

use vstd::prelude::*;
use crate::grid::lemma_row_major_bound;
use crate::grid::lemma_row_major_div_mod;
use crate::grid::lemma_row_major_distinct;

verus! {

/// The previous coordinate on a wrapping axis of length `n`.
pub open spec fn wrap_dec(x: int, n: int) -> int {
    if x == 0 {
        n - 1
    } else {
        x - 1
    }
}

/// The next coordinate on a wrapping axis of length `n`.
pub open spec fn wrap_inc(x: int, n: int) -> int {
    if x == n - 1 {
        0
    } else {
        x + 1
    }
}

/// The mathematical state of a life grid: dimensions and the row-major
/// cell sequence (`true` is alive).
#[verifier::ext_equal]
pub struct LifeView {
    pub width: int,
    pub height: int,
    pub cells: Seq<bool>,
}

impl LifeView {
    pub open spec fn valid(self, r: int, c: int) -> bool {
        0 <= r < self.height && 0 <= c < self.width
    }

    pub open spec fn idx(self, r: int, c: int) -> int {
        r * self.width + c
    }

    pub open spec fn cell_at(self, r: int, c: int) -> bool {
        self.cells[self.idx(r, c)]
    }

    /// Dimensions are positive and the grid has its full size.
    pub open spec fn wf(self) -> bool {
        &&& 1 <= self.width
        &&& 1 <= self.height
        &&& self.cells.len() == self.height * self.width
    }

    pub open spec fn alive_val(self, r: int, c: int) -> int {
        if self.cell_at(r, c) {
            1int
        } else {
            0int
        }
    }

    /// How many of the eight toroidal neighbour positions of (r, c) hold an
    /// alive cell. On an axis shorter than three the same cell is seen from
    /// more than one position and counts once per position.
    pub open spec fn live_neighbors(self, r: int, c: int) -> int {
        let rm = wrap_dec(r, self.height);
        let rp = wrap_inc(r, self.height);
        let cm = wrap_dec(c, self.width);
        let cp = wrap_inc(c, self.width);
        self.alive_val(rm, cm) + self.alive_val(rm, c) + self.alive_val(rm, cp) + self.alive_val(
            r,
            cm,
        ) + self.alive_val(r, cp) + self.alive_val(rp, cm) + self.alive_val(rp, c)
            + self.alive_val(rp, cp)
    }

    /// Conway's rule: an alive cell survives with two or three alive
    /// neighbours; a dead cell revives with exactly three.
    pub open spec fn next_alive(self, r: int, c: int) -> bool {
        if self.cell_at(r, c) {
            self.live_neighbors(r, c) == 2 || self.live_neighbors(r, c) == 3
        } else {
            self.live_neighbors(r, c) == 3
        }
    }
}

/// A toroidal grid of `width` x `height` cells.
pub struct LifeGrid {
    width: usize,
    height: usize,
    cells: Vec<bool>,  // `height` x `width`, row-major
}

impl View for LifeGrid {
    type V = LifeView;

    closed spec fn view(&self) -> LifeView {
        LifeView { width: self.width as int, height: self.height as int, cells: self.cells@ }
    }
}

impl LifeGrid {
    /// A fresh grid with every cell dead.
    pub fn new(width: usize, height: usize) -> (g: LifeGrid)
        requires
            1 <= width,
            1 <= height,
            height * width <= usize::MAX,
        ensures
            g@.wf(),
            g@.width == width,
            g@.height == height,
            forall|r: int, c: int| g@.valid(r, c) ==> !(#[trigger] g@.cell_at(r, c)),
    {
        let n_cells: usize = height * width;
        let mut cells: Vec<bool> = Vec::new();
        let mut k: usize = 0;
        while k < n_cells
            invariant
                k <= n_cells,
                cells@.len() == k,
                forall|t: int| 0 <= t < k ==> !(#[trigger] cells@[t]),
            decreases n_cells - k,
        {
            cells.push(false);
            k = k + 1;
        }
        let g = LifeGrid { width, height, cells };
        proof {
            assert forall|r: int, c: int| g@.valid(r, c) implies !(#[trigger] g@.cell_at(r, c)) by {
                lemma_row_major_bound(g@.height, g@.width, r, c);
            };
        }
        g
    }

    /// The grid's width in cells.
    pub fn width(&self) -> (w: usize)
        ensures
            w == self@.width,
    {
        self.width
    }

    /// The grid's height in cells.
    pub fn height(&self) -> (h: usize)
        ensures
            h == self@.height,
    {
        self.height
    }

    /// Whether cell (row, col) is alive.
    pub fn get_cell(&self, row: usize, col: usize) -> (b: bool)
        requires
            self@.wf(),
            row < self@.height,
            col < self@.width,
        ensures
            b == self@.cell_at(row as int, col as int),
    {
        proof {
            lemma_row_major_bound(self@.height, self@.width, row as int, col as int);
        }
        let _n: usize = self.cells.len();
        self.cells[row * self.width + col]
    }

    /// Flips cell (row, col) between alive and dead; no other cell changes.
    pub fn toggle(&mut self, row: usize, col: usize)
        requires
            old(self)@.wf(),
            row < old(self)@.height,
            col < old(self)@.width,
        ensures
            final(self)@.wf(),
            final(self)@.width == old(self)@.width,
            final(self)@.height == old(self)@.height,
            final(self)@.cell_at(row as int, col as int) == !old(self)@.cell_at(
                row as int,
                col as int,
            ),
            forall|r: int, c: int|
                old(self)@.valid(r, c) && !(r == row && c == col)
                    ==> (#[trigger] final(self)@.cell_at(r, c)) == old(self)@.cell_at(r, c),
    {
        proof {
            lemma_row_major_bound(self@.height, self@.width, row as int, col as int);
        }
        let _n: usize = self.cells.len();
        let idx: usize = row * self.width + col;
        let alive: bool = self.cells[idx];
        self.cells[idx] = !alive;
        proof {
            assert forall|r: int, c: int|
                old(self)@.valid(r, c) && !(r == row && c == col) implies #[trigger] self@.cell_at(
                r,
                c,
            ) == old(self)@.cell_at(r, c) by {
                lemma_row_major_bound(self@.height, self@.width, r, c);
                lemma_row_major_distinct(self@.width, r, c, row as int, col as int);
            };
        }
    }

    /// Kills every cell.
    pub fn reset(&mut self)
        requires
            old(self)@.wf(),
        ensures
            final(self)@.wf(),
            final(self)@.width == old(self)@.width,
            final(self)@.height == old(self)@.height,
            forall|r: int, c: int| final(self)@.valid(r, c) ==> !(#[trigger] final(self)@.cell_at(
                r,
                c,
            )),
    {
        let n: usize = self.cells.len();
        let mut k: usize = 0;
        while k < n
            invariant
                k <= n,
                self@.width == old(self)@.width,
                self@.height == old(self)@.height,
                self.cells@.len() == n,
                forall|t: int| 0 <= t < k ==> !(#[trigger] self.cells@[t]),
            decreases n - k,
        {
            self.cells[k] = false;
            k = k + 1;
        }
        proof {
            assert forall|r: int, c: int| self@.valid(r, c) implies !(#[trigger] self@.cell_at(
                r,
                c,
            )) by {
                lemma_row_major_bound(self@.height, self@.width, r, c);
            };
        }
    }

    /// How many of the eight toroidal neighbour positions of (row, col) hold
    /// an alive cell.
    #[verifier::rlimit(50)]
    fn neighbor_count(&self, row: usize, col: usize) -> (n: u8)
        requires
            self@.wf(),
            row < self@.height,
            col < self@.width,
        ensures
            n == self@.live_neighbors(row as int, col as int),
    {
        let rm: usize = if row == 0 {
            self.height - 1
        } else {
            row - 1
        };
        let rp: usize = if row == self.height - 1 {
            0
        } else {
            row + 1
        };
        let cm: usize = if col == 0 {
            self.width - 1
        } else {
            col - 1
        };
        let cp: usize = if col == self.width - 1 {
            0
        } else {
            col + 1
        };
        proof {
            assert(rm == wrap_dec(row as int, self@.height));
            assert(rp == wrap_inc(row as int, self@.height));
            assert(cm == wrap_dec(col as int, self@.width));
            assert(cp == wrap_inc(col as int, self@.width));
        }
        let ghost v = self@;
        let mut n: u8 = 0;
        if self.get_cell(rm, cm) {
            n = n + 1;
        }
        assert(n == v.alive_val(rm as int, cm as int));
        if self.get_cell(rm, col) {
            n = n + 1;
        }
        assert(n == v.alive_val(rm as int, cm as int) + v.alive_val(rm as int, col as int));
        if self.get_cell(rm, cp) {
            n = n + 1;
        }
        assert(n == v.alive_val(rm as int, cm as int) + v.alive_val(rm as int, col as int)
            + v.alive_val(rm as int, cp as int));
        if self.get_cell(row, cm) {
            n = n + 1;
        }
        assert(n == v.alive_val(rm as int, cm as int) + v.alive_val(rm as int, col as int)
            + v.alive_val(rm as int, cp as int) + v.alive_val(row as int, cm as int));
        if self.get_cell(row, cp) {
            n = n + 1;
        }
        assert(n == v.alive_val(rm as int, cm as int) + v.alive_val(rm as int, col as int)
            + v.alive_val(rm as int, cp as int) + v.alive_val(row as int, cm as int)
            + v.alive_val(row as int, cp as int));
        if self.get_cell(rp, cm) {
            n = n + 1;
        }
        assert(n == v.alive_val(rm as int, cm as int) + v.alive_val(rm as int, col as int)
            + v.alive_val(rm as int, cp as int) + v.alive_val(row as int, cm as int)
            + v.alive_val(row as int, cp as int) + v.alive_val(rp as int, cm as int));
        if self.get_cell(rp, col) {
            n = n + 1;
        }
        assert(n == v.alive_val(rm as int, cm as int) + v.alive_val(rm as int, col as int)
            + v.alive_val(rm as int, cp as int) + v.alive_val(row as int, cm as int)
            + v.alive_val(row as int, cp as int) + v.alive_val(rp as int, cm as int)
            + v.alive_val(rp as int, col as int));
        if self.get_cell(rp, cp) {
            n = n + 1;
        }
        n
    }

    /// Advances the whole grid one generation: every cell's next state is
    /// computed from the previous generation (reads never see this step's
    /// writes), then all writes land at once.
    pub fn step(&mut self)
        requires
            old(self)@.wf(),
        ensures
            final(self)@.wf(),
            final(self)@.width == old(self)@.width,
            final(self)@.height == old(self)@.height,
            forall|r: int, c: int|
                old(self)@.valid(r, c)
                    ==> (#[trigger] final(self)@.cell_at(r, c)) == old(self)@.next_alive(r, c),
    {
        let ghost v0 = self@;
        let w: usize = self.width;
        let h: usize = self.height;
        let mut next: Vec<bool> = Vec::new();
        let mut r: usize = 0;
        while r < h
            invariant
                v0 == self@,
                v0.wf(),
                w == v0.width,
                h == v0.height,
                r <= h,
                next@.len() == r * w,
                forall|k: int|
                    0 <= k < next@.len() ==> #[trigger] next@[k] == v0.next_alive(
                        k / (w as int),
                        k % (w as int),
                    ),
            decreases h - r,
        {
            let mut c: usize = 0;
            while c < w
                invariant
                    v0 == self@,
                    v0.wf(),
                    w == v0.width,
                    h == v0.height,
                    r < h,
                    c <= w,
                    next@.len() == r * w + c,
                    forall|k: int|
                        0 <= k < next@.len() ==> #[trigger] next@[k] == v0.next_alive(
                            k / (w as int),
                            k % (w as int),
                        ),
                decreases w - c,
            {
                let count: u8 = self.neighbor_count(r, c);
                let alive: bool = self.get_cell(r, c);
                let lives: bool = if alive {
                    count == 2 || count == 3
                } else {
                    count == 3
                };
                proof {
                    lemma_row_major_bound(h as int, w as int, r as int, c as int);
                    lemma_row_major_div_mod(w as int, r as int, c as int);
                }
                next.push(lives);
                c = c + 1;
            }
            proof {
                assert((r as int + 1) * (w as int) == r as int * (w as int) + w as int)
                    by (nonlinear_arith);
            }
            r = r + 1;
        }
        self.cells = next;
        proof {
            assert forall|r2: int, c2: int| v0.valid(r2, c2) implies #[trigger] self@.cell_at(
                r2,
                c2,
            ) == v0.next_alive(r2, c2) by {
                lemma_row_major_bound(h as int, w as int, r2, c2);
                lemma_row_major_div_mod(w as int, r2, c2);
            };
        }
    }
}

} // verus!
