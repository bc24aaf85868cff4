//! The textual snapshot of a grid: one line per row, one two-character
//! glyph per cell, each row terminated by a newline.

use vstd::prelude::*;
use crate::cell::Cell;
use crate::universe::{Universe, cell_at};

verus! {

/// The glyph for one cell: a black medium square with a variation
/// selector for a dead cell, a white one for a live cell.
pub open spec fn glyph(c: Cell) -> Seq<char> {
    match c {
        Cell::Dead => seq!['\u{25fc}', '\u{fe0f}'],
        Cell::Alive => seq!['\u{25fb}', '\u{fe0f}'],
    }
}

/// The glyphs of row `r`, columns `[0, c)`, concatenated.
pub open spec fn row_prefix(s: Seq<Cell>, w: int, r: int, c: int) -> Seq<char>
    decreases c,
{
    if c <= 0 {
        Seq::empty()
    } else {
        row_prefix(s, w, r, c - 1) + glyph(cell_at(s, w, r, c - 1))
    }
}

/// One full rendered row: `w` glyphs followed by a newline.
pub open spec fn row_chars(s: Seq<Cell>, w: int, r: int) -> Seq<char> {
    row_prefix(s, w, r, w) + seq!['\n']
}

/// The rendered rows `[0, r)`, concatenated.
pub open spec fn rows_prefix(s: Seq<Cell>, w: int, r: int) -> Seq<char>
    decreases r,
{
    if r <= 0 {
        Seq::empty()
    } else {
        rows_prefix(s, w, r - 1) + row_chars(s, w, r - 1)
    }
}

/// The full textual snapshot of a `w`-by-`h` row-major buffer.
pub open spec fn render_spec(s: Seq<Cell>, w: int, h: int) -> Seq<char> {
    rows_prefix(s, w, h)
}

impl Universe {
    /// A textual snapshot of the current generation: `height` lines in row
    /// order, each holding one glyph per cell and ending in a newline.
    /// Pure: the grid is not mutated.
    pub fn render(&self) -> (r: String)
        requires
            self.wf(),
        ensures
            r@ == render_spec(
                self.cur(),
                self.spec_width() as int,
                self.spec_height() as int,
            ),
    {
        let w = self.width();
        let h = self.height();
        let ghost s = self.cur();
        let cells = self.cells();
        let mut out = String::new();
        let mut row: u32 = 0;
        while row < h
            invariant
                self.wf(),
                w == self.spec_width(),
                h == self.spec_height(),
                s == self.cur(),
                cells@ == s,
                row <= h,
                out@ == rows_prefix(s, w as int, row as int),
            decreases h - row,
        {
            let mut col: u32 = 0;
            while col < w
                invariant
                    self.wf(),
                    w == self.spec_width(),
                    h == self.spec_height(),
                    s == self.cur(),
                    cells@ == s,
                    row < h,
                    col <= w,
                    out@ == rows_prefix(s, w as int, row as int) + row_prefix(
                        s,
                        w as int,
                        row as int,
                        col as int,
                    ),
                decreases w - col,
            {
                let idx = self.get_index(row, col);
                let ghost out0 = out@;
                if cells[idx] == Cell::Alive {
                    out.append("\u{25fb}\u{fe0f}");
                } else {
                    out.append("\u{25fc}\u{fe0f}");
                }
                proof {
                    reveal_strlit("\u{25fc}\u{fe0f}");
                    reveal_strlit("\u{25fb}\u{fe0f}");
                    assert(out@ =~= out0 + glyph(cell_at(s, w as int, row as int, col as int)));
                    assert(out@ =~= rows_prefix(s, w as int, row as int) + row_prefix(
                        s,
                        w as int,
                        row as int,
                        col as int + 1,
                    ));
                }
                col += 1;
            }
            let ghost out1 = out@;
            out.append("\n");
            proof {
                reveal_strlit("\n");
                assert(out@ =~= out1 + seq!['\n']);
                assert(out@ =~= rows_prefix(s, w as int, row as int + 1));
            }
            row += 1;
        }
        out
    }
}

/// The shape of a rendered row prefix: two characters per cell, none of
/// them a newline, with the glyph of column `j` at characters `2j, 2j+1`.
pub proof fn lemma_row_prefix_shape(s: Seq<Cell>, w: int, r: int, c: int)
    requires
        0 <= c,
    ensures
        row_prefix(s, w, r, c).len() == 2 * c,
        forall|i: int| 0 <= i < 2 * c ==> row_prefix(s, w, r, c)[i] != '\n',
        forall|j: int|
            0 <= j < c ==> row_prefix(s, w, r, c).subrange(2 * j, 2 * j + 2) == glyph(
                cell_at(s, w, r, j),
            ),
    decreases c,
{
    if c > 0 {
        lemma_row_prefix_shape(s, w, r, c - 1);
        let prev = row_prefix(s, w, r, c - 1);
        let full = row_prefix(s, w, r, c);
        let g = glyph(cell_at(s, w, r, c - 1));
        assert(g.len() == 2 && g[0] != '\n' && g[1] != '\n');
        assert(full.subrange(2 * (c - 1), 2 * (c - 1) + 2) =~= g);
        assert forall|j: int| 0 <= j < c - 1 implies full.subrange(2 * j, 2 * j + 2) == glyph(
            cell_at(s, w, r, j),
        ) by {
            assert(full.subrange(2 * j, 2 * j + 2) =~= prev.subrange(2 * j, 2 * j + 2));
        }
    }
}

/// The shape of one full rendered row: `2w + 1` characters, the glyph of
/// column `j` at characters `2j, 2j+1`, and a newline at the end and
/// nowhere else.
pub proof fn lemma_row_chars_shape(s: Seq<Cell>, w: int, r: int)
    requires
        0 <= w,
    ensures
        row_chars(s, w, r).len() == 2 * w + 1,
        row_chars(s, w, r)[2 * w] == '\n',
        forall|i: int| 0 <= i < 2 * w ==> row_chars(s, w, r)[i] != '\n',
        forall|j: int|
            0 <= j < w ==> row_chars(s, w, r).subrange(2 * j, 2 * j + 2) == glyph(
                cell_at(s, w, r, j),
            ),
{
    lemma_row_prefix_shape(s, w, r, w);
    let p = row_prefix(s, w, r, w);
    let full = row_chars(s, w, r);
    assert forall|j: int| 0 <= j < w implies full.subrange(2 * j, 2 * j + 2) == glyph(
        cell_at(s, w, r, j),
    ) by {
        assert(full.subrange(2 * j, 2 * j + 2) =~= p.subrange(2 * j, 2 * j + 2));
    }
}

/// The first `r` rendered rows concatenate to `r` lines of `2w + 1`
/// characters each, line `q` being the full rendered row `q`.
pub proof fn lemma_rows_prefix_shape(s: Seq<Cell>, w: int, r: int)
    requires
        0 <= w,
        0 <= r,
    ensures
        rows_prefix(s, w, r).len() == r * (2 * w + 1),
        forall|q: int|
            0 <= q < r ==> rows_prefix(s, w, r).subrange(
                q * (2 * w + 1),
                (q + 1) * (2 * w + 1),
            ) == row_chars(s, w, q),
    decreases r,
{
    if r > 0 {
        lemma_rows_prefix_shape(s, w, r - 1);
        lemma_row_chars_shape(s, w, r - 1);
        let prev = rows_prefix(s, w, r - 1);
        let full = rows_prefix(s, w, r);
        let line = 2 * w + 1;
        assert(r * line == (r - 1) * line + line) by (nonlinear_arith);
        assert forall|q: int| 0 <= q < r implies full.subrange(q * line, (q + 1) * line)
            == row_chars(s, w, q) by {
            assert(0 <= q * line) by (nonlinear_arith)
                requires
                    0 <= q,
                    0 < line,
            ;
            assert((q + 1) * line == q * line + line) by (nonlinear_arith);
            if q < r - 1 {
                assert(q * line + line <= (r - 1) * line) by (nonlinear_arith)
                    requires
                        q + 1 <= r - 1,
                        0 < line,
                        (q + 1) * line == q * line + line,
                ;
                assert(full.subrange(q * line, (q + 1) * line) =~= prev.subrange(
                    q * line,
                    (q + 1) * line,
                ));
            } else {
                assert(full.subrange(q * line, (q + 1) * line) =~= row_chars(s, w, q));
            }
        }
    } else {
        assert(r * (2 * w + 1) == 0) by (nonlinear_arith)
            requires
                r == 0,
        ;
    }
}

/// The rendered snapshot of a `w`-by-`h` buffer has exactly `h` lines,
/// each of exactly `w` glyphs: character `q * (2w+1) + 2w` is the newline
/// ending line `q`, no other character is a newline, and within line `q`
/// the characters `2j, 2j+1` are the glyph of the cell at row `q`,
/// column `j`.
pub proof fn lemma_render_shape(s: Seq<Cell>, w: int, h: int)
    requires
        0 <= w,
        0 <= h,
    ensures
        render_spec(s, w, h).len() == h * (2 * w + 1),
        forall|q: int|
            0 <= q < h ==> render_spec(s, w, h).subrange(
                q * (2 * w + 1),
                (q + 1) * (2 * w + 1),
            ) == row_chars(s, w, q),
        forall|q: int| 0 <= q < h ==> row_chars(s, w, q).len() == 2 * w + 1,
        forall|q: int| 0 <= q < h ==> row_chars(s, w, q)[2 * w] == '\n',
        forall|q: int, i: int|
            0 <= q < h && 0 <= i < 2 * w ==> row_chars(s, w, q)[i] != '\n',
        forall|q: int, j: int|
            0 <= q < h && 0 <= j < w ==> row_chars(s, w, q).subrange(2 * j, 2 * j + 2) == glyph(
                cell_at(s, w, q, j),
            ),
{
    lemma_rows_prefix_shape(s, w, h);
    assert forall|q: int| 0 <= q < h implies row_chars(s, w, q).len() == 2 * w + 1 && row_chars(
        s,
        w,
        q,
    )[2 * w] == '\n' && (forall|i: int| 0 <= i < 2 * w ==> row_chars(s, w, q)[i] != '\n') && (
    forall|j: int|
        0 <= j < w ==> row_chars(s, w, q).subrange(2 * j, 2 * j + 2) == glyph(
            cell_at(s, w, q, j),
        )) by {
        lemma_row_chars_shape(s, w, q);
    }
}

} // verus!
