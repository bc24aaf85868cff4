//! The grid engine: a double-buffered, toroidal cell grid and its
//! generation transition.

use vstd::prelude::*;
use vstd::arithmetic::div_mod::lemma_fundamental_div_mod_converse;
use crate::cell::{Cell, live_val, next_cell, spec_toggle};

verus! {

/// A requested dimension clamped down to the nearest multiple of 8.
pub open spec fn spec_clamp(d: u32) -> int {
    (d / 8) * 8
}

/// One step toward lower indices on a torus of extent `n`: 0 wraps to `n - 1`.
pub open spec fn wrap_dec(i: int, n: int) -> int {
    if i == 0 {
        n - 1
    } else {
        i - 1
    }
}

/// One step toward higher indices on a torus of extent `n`: `n - 1` wraps to 0.
pub open spec fn wrap_inc(i: int, n: int) -> int {
    if i == n - 1 {
        0
    } else {
        i + 1
    }
}

/// The cell of the row-major buffer `s` of width `w` at row `r`, column `c`.
pub open spec fn cell_at(s: Seq<Cell>, w: int, r: int, c: int) -> Cell {
    s[r * w + c]
}

/// The number of live cells among the eight toroidal neighbors of (`r`, `c`)
/// in the row-major buffer `s` of width `w` and height `h`.
pub open spec fn neighbor_count(s: Seq<Cell>, w: int, h: int, r: int, c: int) -> int {
    let rn = wrap_dec(r, h);
    let rs = wrap_inc(r, h);
    let cw = wrap_dec(c, w);
    let ce = wrap_inc(c, w);
    live_val(cell_at(s, w, rn, cw)) + live_val(cell_at(s, w, rn, c)) + live_val(
        cell_at(s, w, rn, ce),
    ) + live_val(cell_at(s, w, r, cw)) + live_val(cell_at(s, w, r, ce)) + live_val(
        cell_at(s, w, rs, cw),
    ) + live_val(cell_at(s, w, rs, c)) + live_val(cell_at(s, w, rs, ce))
}

/// One full generation applied to a row-major buffer of width `w`, height `h`.
pub open spec fn step_spec(s: Seq<Cell>, w: int, h: int) -> Seq<Cell> {
    Seq::new(s.len(), |i: int| next_cell(s[i], neighbor_count(s, w, h, i / w, i % w)))
}

/// The initial buffer built from one boolean draw per cell: a draw of
/// `true` yields a live cell.
pub open spec fn seed_to_cells(seed: Seq<bool>) -> Seq<Cell> {
    Seq::new(
        seed.len(),
        |i: int|
            if seed[i] {
                Cell::Alive
            } else {
                Cell::Dead
            },
    )
}

/// A row-major index stays within a `w`-by-`h` buffer.
pub proof fn lemma_row_major_in_range(r: int, c: int, w: int, h: int)
    requires
        0 <= r < h,
        0 <= c < w,
    ensures
        0 <= r * w + c < w * h,
{
    assert(0 <= r * w + c < w * h) by (nonlinear_arith)
        requires
            0 <= r < h,
            0 <= c < w,
    ;
}

/// Row and column are recovered from a row-major index by division and
/// remainder by the width.
pub proof fn lemma_row_major_roundtrip(r: int, c: int, w: int)
    requires
        0 <= r,
        0 <= c < w,
    ensures
        (r * w + c) / w == r,
        (r * w + c) % w == c,
{
    lemma_fundamental_div_mod_converse(r * w + c, w, r, c);
}

/// What one generation writes at row `r`, column `c`: the transition rule
/// applied to that cell and its toroidal live-neighbor count.
pub proof fn lemma_step_spec_cell(s: Seq<Cell>, w: int, h: int, r: int, c: int)
    requires
        0 <= r < h,
        0 <= c < w,
        s.len() == w * h,
    ensures
        step_spec(s, w, h)[r * w + c] == next_cell(cell_at(s, w, r, c), neighbor_count(s, w, h, r, c)),
{
    lemma_row_major_in_range(r, c, w, h);
    lemma_row_major_roundtrip(r, c, w);
}

/// The grid engine. It owns two equal-length row-major cell buffers and a
/// selector telling which of the two holds the present generation; the
/// other is scratch space that the next `tick` overwrites in full.
pub struct Universe {
    width: u32,
    height: u32,
    cells_a: Vec<Cell>,
    cells_b: Vec<Cell>,
    cells_idx: usize,
}

impl Universe {
    /// The grid's width in cells.
    pub closed spec fn spec_width(self) -> u32 {
        self.width
    }

    /// The grid's height in cells.
    pub closed spec fn spec_height(self) -> u32 {
        self.height
    }

    /// The buffer holding the present generation.
    pub closed spec fn cur(self) -> Seq<Cell> {
        if self.cells_idx == 0 {
            self.cells_a@
        } else {
            self.cells_b@
        }
    }

    /// The scratch buffer: overwritten in full by the next `tick`, then
    /// promoted to current.
    pub closed spec fn scratch(self) -> Seq<Cell> {
        if self.cells_idx == 0 {
            self.cells_b@
        } else {
            self.cells_a@
        }
    }

    /// Well-formedness: the selector picks one of the two buffers, both
    /// dimensions are multiples of 8, the cell count fits in a `u32`, and
    /// both buffers hold exactly one cell per grid position.
    pub closed spec fn wf(self) -> bool {
        &&& (self.cells_idx == 0 || self.cells_idx == 1)
        &&& self.width % 8 == 0
        &&& self.height % 8 == 0
        &&& self.width * self.height <= u32::MAX
        &&& self.cells_a@.len() == self.width * self.height
        &&& self.cells_b@.len() == self.width * self.height
    }

    /// Build a grid from requested dimensions and one boolean draw per
    /// cell. Dimensions that are not multiples of 8 are clamped down to
    /// the nearest multiple; the current buffer takes one cell per draw
    /// (`true` for alive), and the scratch buffer is pre-filled with live
    /// cells that the first `tick` overwrites before they can be seen.
    pub fn new(width: u32, height: u32, seed: Vec<bool>) -> (r: Universe)
        requires
            spec_clamp(width) * spec_clamp(height) <= u32::MAX,
            seed@.len() == spec_clamp(width) * spec_clamp(height),
        ensures
            r.wf(),
            r.spec_width() == spec_clamp(width),
            r.spec_height() == spec_clamp(height),
            r.cur() == seed_to_cells(seed@),
            r.scratch().len() == seed@.len(),
            forall|i: int| 0 <= i < seed@.len() ==> r.scratch()[i] == Cell::Alive,
    {
        let mut w = width;
        let mut h = height;
        if w % 8 != 0 || h % 8 != 0 {
            w = w / 8 * 8;
            h = h / 8 * 8;
        }
        assert(w == spec_clamp(width) && h == spec_clamp(height));

        let n: usize = (w * h) as usize;
        let mut cells_a: Vec<Cell> = Vec::new();
        let mut i: usize = 0;
        while i < n
            invariant
                i <= n,
                n == seed@.len(),
                cells_a@.len() == i,
                forall|j: int|
                    0 <= j < i ==> cells_a@[j] == (if seed@[j] {
                        Cell::Alive
                    } else {
                        Cell::Dead
                    }),
            decreases n - i,
        {
            if seed[i] {
                cells_a.push(Cell::Alive);
            } else {
                cells_a.push(Cell::Dead);
            }
            i += 1;
        }

        let mut cells_b: Vec<Cell> = Vec::new();
        let mut k: usize = 0;
        while k < n
            invariant
                k <= n,
                cells_b@.len() == k,
                forall|j: int| 0 <= j < k ==> cells_b@[j] == Cell::Alive,
            decreases n - k,
        {
            cells_b.push(Cell::Alive);
            k += 1;
        }

        let r = Universe { width: w, height: h, cells_a, cells_b, cells_idx: 0 };
        proof {
            assert(r.cur() =~= seed_to_cells(seed@));
        }
        r
    }

    /// The width in cells.
    pub fn width(&self) -> (r: u32)
        ensures
            r == self.spec_width(),
    {
        self.width
    }

    /// The height in cells.
    pub fn height(&self) -> (r: u32)
        ensures
            r == self.spec_height(),
    {
        self.height
    }

    /// Read access to the current buffer's backing storage, for zero-copy
    /// external rendering. The view is tied to this borrow: any mutating
    /// call (`tick`, `toggle_cell`) may swap or overwrite the buffer.
    pub fn cells(&self) -> (r: &Vec<Cell>)
        ensures
            r@ == self.cur(),
    {
        if self.cells_idx == 0 {
            &self.cells_a
        } else {
            &self.cells_b
        }
    }

    /// The linear, row-major index of (`row`, `column`).
    pub fn get_index(&self, row: u32, column: u32) -> (r: usize)
        requires
            self.wf(),
            row < self.spec_height(),
            column < self.spec_width(),
        ensures
            r == row * self.spec_width() + column,
            r < self.cur().len(),
    {
        proof {
            lemma_row_major_in_range(
                row as int,
                column as int,
                self.width as int,
                self.height as int,
            );
        }
        (row * self.width + column) as usize
    }

    /// The number of live cells among the eight toroidal neighbors of
    /// (`row`, `column`) in the current buffer.
    #[verifier::rlimit(50)]
    pub fn live_neighbor_count(&self, row: u32, column: u32) -> (r: u8)
        requires
            self.wf(),
            row < self.spec_height(),
            column < self.spec_width(),
        ensures
            r as int == neighbor_count(
                self.cur(),
                self.spec_width() as int,
                self.spec_height() as int,
                row as int,
                column as int,
            ),
            r <= 8,
    {
        let north = if row == 0 {
            self.height - 1
        } else {
            row - 1
        };
        let south = if row == self.height - 1 {
            0
        } else {
            row + 1
        };
        let west = if column == 0 {
            self.width - 1
        } else {
            column - 1
        };
        let east = if column == self.width - 1 {
            0
        } else {
            column + 1
        };

        let mut count: u8 = 0;

        let nw = self.get_index(north, west);
        let n = self.get_index(north, column);
        let ne = self.get_index(north, east);
        let w = self.get_index(row, west);
        let e = self.get_index(row, east);
        let sw = self.get_index(south, west);
        let s = self.get_index(south, column);
        let se = self.get_index(south, east);

        let cells = self.cells();
        if cells[nw] == Cell::Alive {
            count += 1;
        }
        if cells[n] == Cell::Alive {
            count += 1;
        }
        if cells[ne] == Cell::Alive {
            count += 1;
        }
        if cells[w] == Cell::Alive {
            count += 1;
        }
        if cells[e] == Cell::Alive {
            count += 1;
        }
        if cells[sw] == Cell::Alive {
            count += 1;
        }
        if cells[s] == Cell::Alive {
            count += 1;
        }
        if cells[se] == Cell::Alive {
            count += 1;
        }
        count
    }

    /// Flip the state of exactly one cell of the current buffer, in
    /// place. No other cell changes, the scratch buffer is untouched, and
    /// the generation does not advance.
    pub fn toggle_cell(&mut self, row: u32, column: u32)
        requires
            old(self).wf(),
            row < old(self).spec_height(),
            column < old(self).spec_width(),
        ensures
            final(self).wf(),
            final(self).spec_width() == old(self).spec_width(),
            final(self).spec_height() == old(self).spec_height(),
            final(self).scratch() == old(self).scratch(),
            final(self).cur() == old(self).cur().update(
                row * old(self).spec_width() + column,
                spec_toggle(old(self).cur()[row * old(self).spec_width() + column]),
            ),
    {
        let idx = self.get_index(row, column);
        let mut cell = if self.cells_idx == 0 {
            self.cells_a[idx]
        } else {
            self.cells_b[idx]
        };
        cell.toggle();
        if self.cells_idx == 0 {
            self.cells_a[idx] = cell;
        } else {
            self.cells_b[idx] = cell;
        }
    }

    /// Advance the grid one generation: every cell of the scratch buffer
    /// is written from the transition rule applied to the current buffer,
    /// then the selector flips, so the scratch buffer becomes current and
    /// the old current buffer (unchanged) becomes scratch.
    pub fn tick(&mut self)
        requires
            old(self).wf(),
        ensures
            final(self).wf(),
            final(self).spec_width() == old(self).spec_width(),
            final(self).spec_height() == old(self).spec_height(),
            final(self).cur() == step_spec(
                old(self).cur(),
                old(self).spec_width() as int,
                old(self).spec_height() as int,
            ),
            final(self).scratch() == old(self).cur(),
    {
        let w = self.width;
        let h = self.height;
        let ghost s0 = self.cur();
        let ghost target = step_spec(s0, w as int, h as int);
        let ghost idx0 = self.cells_idx;

        let mut row: u32 = 0;
        while row < h
            invariant
                self.wf(),
                self.width == w,
                self.height == h,
                self.cells_idx == idx0,
                self.cur() == s0,
                target == step_spec(s0, w as int, h as int),
                s0.len() == w * h,
                row <= h,
                forall|i: int| 0 <= i < row * w ==> self.scratch()[i] == target[i],
            decreases h - row,
        {
            let mut col: u32 = 0;
            while col < w
                invariant
                    self.wf(),
                    self.width == w,
                    self.height == h,
                    self.cells_idx == idx0,
                    self.cur() == s0,
                    target == step_spec(s0, w as int, h as int),
                    s0.len() == w * h,
                    row < h,
                    col <= w,
                    forall|i: int| 0 <= i < row * w + col ==> self.scratch()[i] == target[i],
                decreases w - col,
            {
                let idx = self.get_index(row, col);
                let cell = if self.cells_idx == 0 {
                    self.cells_a[idx]
                } else {
                    self.cells_b[idx]
                };
                let live_neighbors = self.live_neighbor_count(row, col);

                let next = if cell == Cell::Alive {
                    if live_neighbors < 2 {
                        Cell::Dead
                    } else if live_neighbors < 4 {
                        Cell::Alive
                    } else {
                        Cell::Dead
                    }
                } else {
                    if live_neighbors == 3 {
                        Cell::Alive
                    } else {
                        Cell::Dead
                    }
                };

                proof {
                    lemma_step_spec_cell(s0, w as int, h as int, row as int, col as int);
                    assert(cell == cell_at(s0, w as int, row as int, col as int));
                    assert(target[idx as int] == next);
                }

                if self.cells_idx == 0 {
                    self.cells_b[idx] = next;
                } else {
                    self.cells_a[idx] = next;
                }
                col += 1;
            }
            proof {
                assert((row + 1) * w == row * w + w) by (nonlinear_arith);
            }
            row += 1;
        }

        proof {
            assert(h * w == w * h) by (nonlinear_arith);
            assert(self.scratch() =~= target);
        }
        self.cells_idx = if self.cells_idx == 0 {
            1
        } else {
            0
        };
    }
}

/// Every well-formed grid has a width and a height that are multiples of 8,
/// whatever dimensions its caller requested.
pub proof fn lemma_dims_multiple_of_8(u: Universe)
    requires
        u.wf(),
    ensures
        u.spec_width() % 8 == 0,
        u.spec_height() % 8 == 0,
{
}

/// Stepping is deterministic: two grids with the same dimensions and the
/// same current-buffer contents step to the same next buffer.
pub proof fn lemma_step_deterministic(a: Universe, b: Universe)
    requires
        a.spec_width() == b.spec_width(),
        a.spec_height() == b.spec_height(),
        a.cur() == b.cur(),
    ensures
        step_spec(a.cur(), a.spec_width() as int, a.spec_height() as int) == step_spec(
            b.cur(),
            b.spec_width() as int,
            b.spec_height() as int,
        ),
{
}

/// Toggling the same position twice restores the buffer exactly.
pub proof fn lemma_toggle_twice(s: Seq<Cell>, i: int)
    requires
        0 <= i < s.len(),
    ensures
        s.update(i, spec_toggle(s[i])).update(
            i,
            spec_toggle(s.update(i, spec_toggle(s[i]))[i]),
        ) == s,
{
    let s1 = s.update(i, spec_toggle(s[i]));
    assert(s1.update(i, spec_toggle(s1[i])) =~= s);
}

} // verus!
