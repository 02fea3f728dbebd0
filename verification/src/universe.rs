use vstd::prelude::*;
use vstd::string::StringExecFns;
use crate::cell::{Cell, flipped, live_count};
use crate::model::{
    dead_cells, glider_pattern, glyph, in_stamp, lemma_wrap_index_bounds,
    lemma_wrap_index_injective, live_neighbors, marked_alive, pulser_pattern, rendered_grid,
    seed_cell, seeded_cells, step, wrap_index,
};

verus! {

/// The grid engine: a `width x height` toroidal Game of Life board.
/// Cells are stored row-major, one entry per grid position.
pub struct Universe {
    width: u32,
    height: u32,
    cells: Vec<Cell>,
}

/// Builds a buffer of `n` dead cells.
fn dead_buffer(n: usize) -> (v: Vec<Cell>)
    ensures
        v@ == dead_cells(n as nat),
{
    let mut v: Vec<Cell> = Vec::new();
    let mut i: usize = 0;
    while i < n
        invariant
            i <= n,
            v@.len() == i,
            forall|j: int| 0 <= j < i ==> v@[j] == Cell::Dead,
        decreases n - i,
    {
        v.push(Cell::Dead);
        i = i + 1;
    }
    proof {
        assert(v@ =~= dead_cells(n as nat));
    }
    v
}

/// Builds a buffer of `n` cells holding the deterministic seed: the
/// cell at index `i` is alive exactly when `i % 2 == 0` or `i % 7 == 0`.
fn seeded_buffer(n: usize) -> (v: Vec<Cell>)
    ensures
        v@ == seeded_cells(n as nat),
{
    let mut v: Vec<Cell> = Vec::new();
    let mut i: usize = 0;
    while i < n
        invariant
            i <= n,
            v@.len() == i,
            forall|j: int| 0 <= j < i ==> v@[j] == seed_cell(j),
        decreases n - i,
    {
        if i % 2 == 0 || i % 7 == 0 {
            v.push(Cell::Alive);
        } else {
            v.push(Cell::Dead);
        }
        i = i + 1;
    }
    proof {
        assert(v@ =~= seeded_cells(n as nat));
    }
    v
}

impl Universe {
    /// The grid's width, for contracts.
    pub closed spec fn spec_width(&self) -> u32 {
        self.width
    }

    /// The grid's height, for contracts.
    pub closed spec fn spec_height(&self) -> u32 {
        self.height
    }

    /// The cell buffer, for contracts.
    pub closed spec fn cells_view(&self) -> Seq<Cell> {
        self.cells@
    }

    /// Well-formedness: the buffer holds exactly one cell per grid
    /// position.
    pub open spec fn wf(&self) -> bool {
        self.cells_view().len() == self.spec_width() * self.spec_height()
    }

    /// A fresh 64 x 64 universe holding the deterministic seed pattern.
    pub fn new() -> (u: Universe)
        ensures
            u.wf(),
            u.spec_width() == 64,
            u.spec_height() == 64,
            u.cells_view() == seeded_cells(4096),
    {
        Universe { width: 64, height: 64, cells: seeded_buffer(4096) }
    }

    /// Replaces the width and resets every cell to dead at the new
    /// size; the previous pattern is lost.
    pub fn set_width(&mut self, width: u32)
        requires
            width * old(self).spec_height() <= usize::MAX,
        ensures
            final(self).wf(),
            final(self).spec_width() == width,
            final(self).spec_height() == old(self).spec_height(),
            final(self).cells_view() == dead_cells((width * old(self).spec_height()) as nat),
    {
        self.width = width;
        let n: usize = (width as usize) * (self.height as usize);
        self.cells = dead_buffer(n);
    }

    /// Replaces the height and resets every cell to dead at the new
    /// size; the previous pattern is lost.
    pub fn set_height(&mut self, height: u32)
        requires
            old(self).spec_width() * height <= usize::MAX,
        ensures
            final(self).wf(),
            final(self).spec_width() == old(self).spec_width(),
            final(self).spec_height() == height,
            final(self).cells_view() == dead_cells((old(self).spec_width() * height) as nat),
    {
        self.height = height;
        let n: usize = (self.width as usize) * (height as usize);
        self.cells = dead_buffer(n);
    }

    /// The line-per-row text view of the grid: for each row, one glyph
    /// per cell followed by a newline. Causes no mutation.
    pub fn render(&self) -> (s: String)
        requires
            self.wf(),
        ensures
            s@ == rendered_grid(
                self.cells_view(),
                self.spec_width() as nat,
                self.spec_height() as nat,
            ),
    {
        let w = self.width;
        let h = self.height;
        let mut s = String::new();
        let mut r: u32 = 0;
        while r < h
            invariant
                self.wf(),
                w == self.spec_width(),
                h == self.spec_height(),
                r <= h,
                s@ == rendered_grid(self.cells_view(), w as nat, r as nat),
            decreases h - r,
        {
            let mut c: u32 = 0;
            while c < w
                invariant
                    self.wf(),
                    w == self.spec_width(),
                    h == self.spec_height(),
                    r < h,
                    c <= w,
                    s@ == rendered_grid(self.cells_view(), w as nat, r as nat) + Seq::new(
                        c as nat,
                        |j: int| glyph(self.cells_view()[r * w + j]),
                    ),
                decreases w - c,
            {
                let idx = self.get_index(r, c);
                match self.cells[idx] {
                    Cell::Alive => s.append("◼"),
                    Cell::Dead => s.append("◻"),
                }
                proof {
                    reveal_strlit("◼");
                    reveal_strlit("◻");
                    assert(s@ =~= rendered_grid(self.cells_view(), w as nat, r as nat) + Seq::new(
                        (c + 1) as nat,
                        |j: int| glyph(self.cells_view()[r * w + j]),
                    ));
                }
                c = c + 1;
            }
            s.append("\n");
            proof {
                reveal_strlit("\n");
                assert(s@ =~= rendered_grid(self.cells_view(), w as nat, (r + 1) as nat));
            }
            r = r + 1;
        }
        s
    }

    /// The grid's width in cells.
    pub fn width(&self) -> (w: u32)
        ensures
            w == self.spec_width(),
    {
        self.width
    }

    /// The grid's height in cells.
    pub fn height(&self) -> (h: u32)
        ensures
            h == self.spec_height(),
    {
        self.height
    }

    /// A read-only view of the cell buffer for the host renderer,
    /// valid until the next size-changing call.
    pub fn cells(&self) -> (c: &Vec<Cell>)
        ensures
            c@ == self.cells_view(),
    {
        &self.cells
    }

    /// The whole cell buffer as a slice, for inspection.
    pub fn get_cells(&self) -> (c: &[Cell])
        ensures
            c@ == self.cells_view(),
    {
        self.cells.as_slice()
    }

    /// The linear index of `(row, column)` in the row-major buffer.
    fn get_index(&self, row: u32, column: u32) -> (idx: usize)
        requires
            self.wf(),
            row < self.spec_height(),
            column < self.spec_width(),
        ensures
            idx == row * self.spec_width() + column,
            idx < self.cells_view().len(),
    {
        // Binding the length records that the buffer, and so the
        // in-bounds index below, fits in usize.
        let len: usize = self.cells.len();
        proof {
            assert(row * self.width + column < self.width * self.height) by (nonlinear_arith)
                requires
                    row < self.height,
                    column < self.width,
            ;
        }
        (row as usize) * (self.width as usize) + (column as usize)
    }

    /// The linear index of the cell the toroidal offset `(dr, dc)`
    /// reaches from `(row, column)`: both coordinates wrap modulo the
    /// grid dimensions.
    fn wrapped_index(&self, row: u32, column: u32, dr: u32, dc: u32) -> (idx: usize)
        requires
            self.wf(),
            self.spec_width() > 0,
            self.spec_height() > 0,
        ensures
            idx == wrap_index(
                self.spec_width() as nat,
                self.spec_height() as nat,
                row as nat,
                column as nat,
                dr as nat,
                dc as nat,
            ),
            idx < self.cells_view().len(),
    {
        let w = self.width;
        let h = self.height;
        let nr = (((row as u64) + (dr as u64)) % (h as u64)) as u32;
        let nc = (((column as u64) + (dc as u64)) % (w as u64)) as u32;
        // Binding the length records that the buffer, and so the
        // in-bounds index below, fits in usize.
        let len: usize = self.cells.len();
        proof {
            assert(nr * w + nc < h * w) by (nonlinear_arith)
                requires
                    nr < h,
                    nc < w,
            ;
        }
        (nr as usize) * (w as usize) + (nc as usize)
    }

    /// The neighbor-count increment of the cell at linear index `idx`:
    /// 1 if it is alive, 0 if it is dead.
    fn cell_increment(&self, idx: usize) -> (k: u8)
        requires
            idx < self.cells_view().len(),
        ensures
            k as nat == live_count(self.cells_view()[idx as int]),
    {
        match self.cells[idx] {
            Cell::Alive => 1,
            Cell::Dead => 0,
        }
    }

    /// How many of the 8 toroidal neighbors of `(row, column)` are
    /// alive.
    fn live_neighbor_count(&self, row: u32, column: u32) -> (n: u8)
        requires
            self.wf(),
            row < self.spec_height(),
            column < self.spec_width(),
        ensures
            n as nat == live_neighbors(
                self.cells_view(),
                self.spec_width() as nat,
                self.spec_height() as nat,
                row as nat,
                column as nat,
            ),
    {
        let up = self.height - 1;
        let left = self.width - 1;
        let mut n: u8 = 0;
        // An offset whose value is (0, 0) — possible when the grid has
        // a single row or column — names the cell itself and is
        // skipped; the offsets with a 1 in them are never (0, 0).
        if up != 0 || left != 0 {
            n = n + self.cell_increment(self.wrapped_index(row, column, up, left));
        }
        if up != 0 {
            n = n + self.cell_increment(self.wrapped_index(row, column, up, 0));
        }
        n = n + self.cell_increment(self.wrapped_index(row, column, up, 1));
        if left != 0 {
            n = n + self.cell_increment(self.wrapped_index(row, column, 0, left));
        }
        n = n + self.cell_increment(self.wrapped_index(row, column, 0, 1));
        n = n + self.cell_increment(self.wrapped_index(row, column, 1, left));
        n = n + self.cell_increment(self.wrapped_index(row, column, 1, 0));
        n = n + self.cell_increment(self.wrapped_index(row, column, 1, 1));
        n
    }

    /// Advances the grid by exactly one generation: every cell is
    /// updated simultaneously from a snapshot of the prior generation,
    /// by the standard birth/survival rule over the 8 toroidal
    /// neighbors. On a degenerate (empty) grid this is a no-op.
    pub fn tick(&mut self)
        requires
            old(self).wf(),
        ensures
            final(self).wf(),
            final(self).spec_width() == old(self).spec_width(),
            final(self).spec_height() == old(self).spec_height(),
            final(self).cells_view() == step(
                old(self).cells_view(),
                old(self).spec_width() as nat,
                old(self).spec_height() as nat,
            ),
    {
        let w = self.width;
        let h = self.height;
        let ghost prior = self.cells@;
        if w == 0 || h == 0 {
            proof {
                assert(self.cells@ =~= step(prior, w as nat, h as nat));
            }
            return;
        }
        let n: usize = self.cells.len();
        let mut next = dead_buffer(n);
        let mut row: u32 = 0;
        while row < h
            invariant
                *self == *old(self),
                self.wf(),
                w == self.spec_width(),
                h == self.spec_height(),
                prior == self.cells_view(),
                0 < w,
                0 < h,
                row <= h,
                next@.len() == w * h,
                forall|i: int|
                    0 <= i < row * w ==> next@[i] == step(prior, w as nat, h as nat)[i],
            decreases h - row,
        {
            let mut col: u32 = 0;
            while col < w
                invariant
                    *self == *old(self),
                    self.wf(),
                    w == self.spec_width(),
                    h == self.spec_height(),
                    prior == self.cells_view(),
                    0 < w,
                    0 < h,
                    row < h,
                    col <= w,
                    next@.len() == w * h,
                    forall|i: int|
                        0 <= i < row * w + col ==> next@[i] == step(prior, w as nat, h as nat)[i],
                decreases w - col,
            {
                let idx = self.get_index(row, col);
                let cell = self.cells[idx];
                let live = self.live_neighbor_count(row, col);
                let updated = match cell {
                    Cell::Alive => if live == 2 || live == 3 {
                        Cell::Alive
                    } else {
                        Cell::Dead
                    },
                    Cell::Dead => if live == 3 {
                        Cell::Alive
                    } else {
                        Cell::Dead
                    },
                };
                next[idx] = updated;
                proof {
                    vstd::arithmetic::div_mod::lemma_fundamental_div_mod_converse(
                        idx as int,
                        w as int,
                        row as int,
                        col as int,
                    );
                    assert(next@[idx as int] == step(prior, w as nat, h as nat)[idx as int]);
                }
                col = col + 1;
            }
            proof {
                assert((row + 1) * w == row * w + w) by (nonlinear_arith);
            }
            row = row + 1;
        }
        proof {
            assert(h * w == w * h) by (nonlinear_arith);
            assert(next@ =~= step(prior, w as nat, h as nat));
        }
        self.cells = next;
    }

    /// Flips the single cell at in-range coordinates `(row, column)`.
    pub fn toggle_cell(&mut self, row: u32, column: u32)
        requires
            old(self).wf(),
            row < old(self).spec_height(),
            column < old(self).spec_width(),
        ensures
            final(self).wf(),
            final(self).spec_width() == old(self).spec_width(),
            final(self).spec_height() == old(self).spec_height(),
            final(self).cells_view() == old(self).cells_view().update(
                row * old(self).spec_width() + column,
                flipped(old(self).cells_view()[row * old(self).spec_width() + column]),
            ),
    {
        let idx = self.get_index(row, column);
        let mut c = self.cells[idx];
        c.toggle();
        self.cells[idx] = c;
    }

    /// Writes a `rows x cols` row-major pattern with its top-left
    /// corner anchored at `(row, column)`, wrapping toroidally where
    /// it overruns the grid edge. Cells outside the stamped window are
    /// untouched; when the window fits the grid (`rows <= height` and
    /// `cols <= width`) it never overlaps itself, so afterwards it
    /// holds the pattern exactly.
    fn stamp(&mut self, row: u32, column: u32, rows: u32, cols: u32, pattern: &Vec<Cell>)
        requires
            old(self).wf(),
            old(self).spec_width() > 0,
            old(self).spec_height() > 0,
            pattern@.len() == rows * cols,
        ensures
            final(self).wf(),
            final(self).spec_width() == old(self).spec_width(),
            final(self).spec_height() == old(self).spec_height(),
            final(self).cells_view().len() == old(self).cells_view().len(),
            forall|i: int|
                0 <= i < old(self).cells_view().len() && !in_stamp(
                    old(self).spec_width() as nat,
                    old(self).spec_height() as nat,
                    row as nat,
                    column as nat,
                    rows as nat,
                    cols as nat,
                    i,
                ) ==> final(self).cells_view()[i] == old(self).cells_view()[i],
            rows <= old(self).spec_height() && cols <= old(self).spec_width() ==> forall|
                dr: nat,
                dc: nat,
            |
                dr < rows && dc < cols ==> final(self).cells_view()[#[trigger] wrap_index(
                    old(self).spec_width() as nat,
                    old(self).spec_height() as nat,
                    row as nat,
                    column as nat,
                    dr,
                    dc,
                )] == pattern@[dr * cols + dc],
    {
        let w = self.width;
        let h = self.height;
        let ghost prior = self.cells@;
        let ghost fits = rows <= h && cols <= w;
        let mut dr: u32 = 0;
        while dr < rows
            invariant
                self.wf(),
                w == self.spec_width(),
                h == self.spec_height(),
                0 < w,
                0 < h,
                pattern@.len() == rows * cols,
                prior == old(self).cells_view(),
                self.cells_view().len() == prior.len(),
                fits == (rows <= h && cols <= w),
                dr <= rows,
                forall|i: int|
                    0 <= i < prior.len() && !in_stamp(
                        w as nat,
                        h as nat,
                        row as nat,
                        column as nat,
                        rows as nat,
                        cols as nat,
                        i,
                    ) ==> self.cells_view()[i] == prior[i],
                fits ==> forall|a: nat, b: nat|
                    a < rows && b < cols && a < dr ==> self.cells_view()[#[trigger] wrap_index(
                        w as nat,
                        h as nat,
                        row as nat,
                        column as nat,
                        a,
                        b,
                    )] == pattern@[a * cols + b],
            decreases rows - dr,
        {
            let mut dc: u32 = 0;
            while dc < cols
                invariant
                    self.wf(),
                    w == self.spec_width(),
                    h == self.spec_height(),
                    0 < w,
                    0 < h,
                    pattern@.len() == rows * cols,
                    prior == old(self).cells_view(),
                    self.cells_view().len() == prior.len(),
                    fits == (rows <= h && cols <= w),
                    dr < rows,
                    dc <= cols,
                    forall|i: int|
                        0 <= i < prior.len() && !in_stamp(
                            w as nat,
                            h as nat,
                            row as nat,
                            column as nat,
                            rows as nat,
                            cols as nat,
                            i,
                        ) ==> self.cells_view()[i] == prior[i],
                    fits ==> forall|a: nat, b: nat|
                        a < rows && b < cols && (a < dr || (a == dr && b < dc))
                            ==> self.cells_view()[#[trigger] wrap_index(
                            w as nat,
                            h as nat,
                            row as nat,
                            column as nat,
                            a,
                            b,
                        )] == pattern@[a * cols + b],
                decreases cols - dc,
            {
                let idx = self.wrapped_index(row, column, dr, dc);
                // Binding the length records that the pattern, and so
                // the in-bounds index below, fits in usize.
                let plen: usize = pattern.len();
                proof {
                    assert(dr * cols + dc < rows * cols) by (nonlinear_arith)
                        requires
                            dr < rows,
                            dc < cols,
                    ;
                }
                let pidx: usize = (dr as usize) * (cols as usize) + (dc as usize);
                let ghost before = self.cells_view();
                self.cells[idx] = pattern[pidx];
                proof {
                    assert(in_stamp(
                        w as nat,
                        h as nat,
                        row as nat,
                        column as nat,
                        rows as nat,
                        cols as nat,
                        idx as int,
                    ));
                    if fits {
                        assert forall|a: nat, b: nat|
                            a < rows && b < cols && (a < dr || (a == dr && b < dc + 1))
                                implies self.cells_view()[#[trigger] wrap_index(
                                w as nat,
                                h as nat,
                                row as nat,
                                column as nat,
                                a,
                                b,
                            )] == pattern@[a * cols + b] by {
                            if a == dr && b == dc {
                            } else {
                                lemma_wrap_index_bounds(
                                    w as nat,
                                    h as nat,
                                    row as nat,
                                    column as nat,
                                    a,
                                    b,
                                );
                                lemma_wrap_index_injective(
                                    w as nat,
                                    h as nat,
                                    row as nat,
                                    column as nat,
                                    a,
                                    b,
                                    dr as nat,
                                    dc as nat,
                                );
                                assert(self.cells_view()[wrap_index(
                                    w as nat,
                                    h as nat,
                                    row as nat,
                                    column as nat,
                                    a,
                                    b,
                                )] == before[wrap_index(
                                    w as nat,
                                    h as nat,
                                    row as nat,
                                    column as nat,
                                    a,
                                    b,
                                )]);
                            }
                        }
                    }
                }
                dc = dc + 1;
            }
            dr = dr + 1;
        }
    }

    /// Stamps the fixed 3x3 glider pattern with its top-left corner at
    /// `(row, column)`, wrapping toroidally past the grid edge. Cells
    /// outside the stamped window keep their prior state; on a grid of
    /// at least 3x3 the window afterwards holds exactly the pattern.
    pub fn set_glider(&mut self, row: u32, column: u32)
        requires
            old(self).wf(),
            old(self).spec_width() > 0,
            old(self).spec_height() > 0,
        ensures
            final(self).wf(),
            final(self).spec_width() == old(self).spec_width(),
            final(self).spec_height() == old(self).spec_height(),
            final(self).cells_view().len() == old(self).cells_view().len(),
            forall|i: int|
                0 <= i < old(self).cells_view().len() && !in_stamp(
                    old(self).spec_width() as nat,
                    old(self).spec_height() as nat,
                    row as nat,
                    column as nat,
                    3,
                    3,
                    i,
                ) ==> final(self).cells_view()[i] == old(self).cells_view()[i],
            old(self).spec_height() >= 3 && old(self).spec_width() >= 3 ==> forall|
                dr: nat,
                dc: nat,
            |
                dr < 3 && dc < 3 ==> final(self).cells_view()[#[trigger] wrap_index(
                    old(self).spec_width() as nat,
                    old(self).spec_height() as nat,
                    row as nat,
                    column as nat,
                    dr,
                    dc,
                )] == glider_pattern()[(dr * 3 + dc) as int],
    {
        let pattern: Vec<Cell> = vec![
            Cell::Dead, Cell::Alive, Cell::Dead,
            Cell::Dead, Cell::Dead, Cell::Alive,
            Cell::Alive, Cell::Alive, Cell::Alive,
        ];
        proof {
            assert(pattern@ =~= glider_pattern());
        }
        self.stamp(row, column, 3, 3, &pattern);
    }

    /// Stamps the fixed 3x5 pulser pattern with its top-left corner at
    /// `(row, column)`, wrapping toroidally past the grid edge. Cells
    /// outside the stamped window keep their prior state; on a grid of
    /// at least 3x5 the window afterwards holds exactly the pattern.
    pub fn set_pulser(&mut self, row: u32, column: u32)
        requires
            old(self).wf(),
            old(self).spec_width() > 0,
            old(self).spec_height() > 0,
        ensures
            final(self).wf(),
            final(self).spec_width() == old(self).spec_width(),
            final(self).spec_height() == old(self).spec_height(),
            final(self).cells_view().len() == old(self).cells_view().len(),
            forall|i: int|
                0 <= i < old(self).cells_view().len() && !in_stamp(
                    old(self).spec_width() as nat,
                    old(self).spec_height() as nat,
                    row as nat,
                    column as nat,
                    3,
                    5,
                    i,
                ) ==> final(self).cells_view()[i] == old(self).cells_view()[i],
            old(self).spec_height() >= 3 && old(self).spec_width() >= 5 ==> forall|
                dr: nat,
                dc: nat,
            |
                dr < 3 && dc < 5 ==> final(self).cells_view()[#[trigger] wrap_index(
                    old(self).spec_width() as nat,
                    old(self).spec_height() as nat,
                    row as nat,
                    column as nat,
                    dr,
                    dc,
                )] == pulser_pattern()[(dr * 5 + dc) as int],
    {
        let pattern: Vec<Cell> = vec![
            Cell::Alive, Cell::Dead, Cell::Dead, Cell::Dead, Cell::Alive,
            Cell::Alive, Cell::Dead, Cell::Alive, Cell::Dead, Cell::Alive,
            Cell::Alive, Cell::Dead, Cell::Dead, Cell::Dead, Cell::Alive,
        ];
        proof {
            assert(pattern@ =~= pulser_pattern());
        }
        self.stamp(row, column, 3, 5, &pattern);
    }

    /// Marks each `(row, column)` pair in `pairs` as alive; every
    /// other cell keeps its prior state.
    pub fn set_cells(&mut self, pairs: &[(u32, u32)])
        requires
            old(self).wf(),
            forall|k: int|
                0 <= k < pairs@.len() ==> (#[trigger] pairs@[k]).0 < old(self).spec_height()
                    && pairs@[k].1 < old(self).spec_width(),
        ensures
            final(self).wf(),
            final(self).spec_width() == old(self).spec_width(),
            final(self).spec_height() == old(self).spec_height(),
            final(self).cells_view().len() == old(self).cells_view().len(),
            forall|i: int|
                0 <= i < old(self).cells_view().len()
                    ==> final(self).cells_view()[i] == if marked_alive(
                    pairs@,
                    old(self).spec_width() as nat,
                    pairs@.len() as int,
                    i,
                ) {
                    Cell::Alive
                } else {
                    old(self).cells_view()[i]
                },
    {
        let w = self.width;
        let ghost prior = self.cells@;
        let mut k: usize = 0;
        while k < pairs.len()
            invariant
                self.wf(),
                w == self.spec_width(),
                self.spec_height() == old(self).spec_height(),
                prior == old(self).cells_view(),
                self.cells_view().len() == prior.len(),
                k <= pairs@.len(),
                forall|j: int|
                    0 <= j < pairs@.len() ==> (#[trigger] pairs@[j]).0 < self.spec_height()
                        && pairs@[j].1 < self.spec_width(),
                forall|i: int|
                    0 <= i < prior.len() ==> self.cells_view()[i] == if marked_alive(
                        pairs@,
                        w as nat,
                        k as int,
                        i,
                    ) {
                        Cell::Alive
                    } else {
                        prior[i]
                    },
            decreases pairs@.len() - k,
        {
            let pair = pairs[k];
            let idx = self.get_index(pair.0, pair.1);
            self.cells[idx] = Cell::Alive;
            proof {
                assert((pairs@[k as int]).0 * w + pairs@[k as int].1 == idx);
                assert(marked_alive(pairs@, w as nat, k as int + 1, idx as int));
            }
            k = k + 1;
        }
    }

    /// Sets every cell to dead, keeping the dimensions.
    pub fn set_all_dead_cells(&mut self)
        requires
            old(self).wf(),
        ensures
            final(self).wf(),
            final(self).spec_width() == old(self).spec_width(),
            final(self).spec_height() == old(self).spec_height(),
            final(self).cells_view() == dead_cells(old(self).cells_view().len()),
    {
        let n: usize = self.cells.len();
        self.cells = dead_buffer(n);
    }

    /// Resets the grid to the deterministic construction-time seed,
    /// keeping the dimensions.
    pub fn set_initial_cells(&mut self)
        requires
            old(self).wf(),
        ensures
            final(self).wf(),
            final(self).spec_width() == old(self).spec_width(),
            final(self).spec_height() == old(self).spec_height(),
            final(self).cells_view() == seeded_cells(old(self).cells_view().len()),
    {
        let n: usize = self.cells.len();
        self.cells = seeded_buffer(n);
    }

    /// Reassigns every cell independently at random, keeping the
    /// dimensions. Nothing further can be promised of the outcome.
    pub fn set_random_cells(&mut self)
        requires
            old(self).wf(),
        ensures
            final(self).wf(),
            final(self).spec_width() == old(self).spec_width(),
            final(self).spec_height() == old(self).spec_height(),
            final(self).cells_view().len() == old(self).cells_view().len(),
    {
        let n: usize = self.cells.len();
        let mut v: Vec<Cell> = Vec::new();
        let mut i: usize = 0;
        while i < n
            invariant
                i <= n,
                v@.len() == i,
            decreases n - i,
        {
            if random_bool() {
                v.push(Cell::Alive);
            } else {
                v.push(Cell::Dead);
            }
            i = i + 1;
        }
        self.cells = v;
    }
}

/// Relies on `rand::random::<bool>`: a uniform coin flip. The value
/// depends on a nondeterministic source, so nothing is promised of it.
#[verifier::external_body]
fn random_bool() -> bool {
    rand::random()
}

} // verus!
