use vstd::prelude::*;
use crate::cell::{Cell, live_count};

verus! {

/// The linear index of the wrapped position `((r + dr) % h, (c + dc) % w)`
/// in a row-major grid of width `w`: the place the toroidal offset
/// `(dr, dc)` reaches from `(r, c)`.
pub open spec fn wrap_index(w: nat, h: nat, r: nat, c: nat, dr: nat, dc: nat) -> int {
    (((r + dr) % h) * w + (c + dc) % w) as int
}

/// The cell the toroidal offset `(dr, dc)` reaches from `(r, c)`.
pub open spec fn wrapped_at(
    cells: Seq<Cell>,
    w: nat,
    h: nat,
    r: nat,
    c: nat,
    dr: nat,
    dc: nat,
) -> Cell {
    cells[wrap_index(w, h, r, c, dr, dc)]
}

/// The contribution of the offset `(dr, dc)` to a neighbor count:
/// the liveness of the cell it reaches, except that the zero offset —
/// the cell itself — contributes nothing. On a grid with `h >= 2` and
/// `w >= 2` every offset drawn from `{h-1, 0, 1} x {w-1, 0, 1}` other
/// than the middle one is nonzero; on a one-row or one-column grid
/// `h - 1` or `w - 1` is itself zero, and the offsets it forms with
/// zero are skipped by value.
pub open spec fn neighbor_term(
    cells: Seq<Cell>,
    w: nat,
    h: nat,
    r: nat,
    c: nat,
    dr: nat,
    dc: nat,
) -> nat {
    if dr == 0 && dc == 0 {
        0
    } else {
        live_count(wrapped_at(cells, w, h, r, c, dr, dc))
    }
}

/// How many toroidal neighbors of `(r, c)` are alive: the offsets are
/// `{h-1, 0, 1} x {w-1, 0, 1}` without the middle pair, each taken
/// modulo the grid dimensions — adding `h - 1` modulo `h` is
/// subtracting one row, so on a grid of at least 3 x 3 these reach the
/// 8 distinct surrounding positions with wraparound.
pub open spec fn live_neighbors(cells: Seq<Cell>, w: nat, h: nat, r: nat, c: nat) -> nat {
    neighbor_term(cells, w, h, r, c, (h - 1) as nat, (w - 1) as nat)
        + neighbor_term(cells, w, h, r, c, (h - 1) as nat, 0)
        + neighbor_term(cells, w, h, r, c, (h - 1) as nat, 1)
        + neighbor_term(cells, w, h, r, c, 0, (w - 1) as nat)
        + neighbor_term(cells, w, h, r, c, 0, 1)
        + neighbor_term(cells, w, h, r, c, 1, (w - 1) as nat)
        + neighbor_term(cells, w, h, r, c, 1, 0)
        + neighbor_term(cells, w, h, r, c, 1, 1)
}

/// The birth/survival rule for one cell: a live cell survives with 2
/// or 3 live neighbors and otherwise dies; a dead cell is born with
/// exactly 3 live neighbors and otherwise stays dead.
pub open spec fn next_cell(c: Cell, neighbors: nat) -> Cell {
    match c {
        Cell::Alive => if neighbors == 2 || neighbors == 3 {
            Cell::Alive
        } else {
            Cell::Dead
        },
        Cell::Dead => if neighbors == 3 {
            Cell::Alive
        } else {
            Cell::Dead
        },
    }
}

/// One generation of the whole grid, every cell updated simultaneously
/// from the same snapshot.
pub open spec fn step(cells: Seq<Cell>, w: nat, h: nat) -> Seq<Cell> {
    Seq::new(
        w * h,
        |i: int| next_cell(
            cells[i],
            live_neighbors(cells, w, h, (i / w as int) as nat, (i % w as int) as nat),
        ),
    )
}

/// `n` generations of the grid.
pub open spec fn step_n(cells: Seq<Cell>, w: nat, h: nat, n: nat) -> Seq<Cell>
    decreases n,
{
    if n == 0 {
        cells
    } else {
        step(step_n(cells, w, h, (n - 1) as nat), w, h)
    }
}

/// The deterministic construction-time seed: the cell at linear index
/// `i` is alive exactly when `i % 2 == 0` or `i % 7 == 0`.
pub open spec fn seed_cell(i: int) -> Cell {
    if i % 2 == 0 || i % 7 == 0 {
        Cell::Alive
    } else {
        Cell::Dead
    }
}

/// The seeded buffer of `n` cells.
pub open spec fn seeded_cells(n: nat) -> Seq<Cell> {
    Seq::new(n, |i: int| seed_cell(i))
}

/// A buffer of `n` dead cells.
pub open spec fn dead_cells(n: nat) -> Seq<Cell> {
    Seq::new(n, |i: int| Cell::Dead)
}

/// The fixed 3x3 glider pattern, row-major.
pub open spec fn glider_pattern() -> Seq<Cell> {
    seq![
        Cell::Dead, Cell::Alive, Cell::Dead,
        Cell::Dead, Cell::Dead, Cell::Alive,
        Cell::Alive, Cell::Alive, Cell::Alive,
    ]
}

/// The fixed 3x5 pulser pattern, row-major.
pub open spec fn pulser_pattern() -> Seq<Cell> {
    seq![
        Cell::Alive, Cell::Dead, Cell::Dead, Cell::Dead, Cell::Alive,
        Cell::Alive, Cell::Dead, Cell::Alive, Cell::Dead, Cell::Alive,
        Cell::Alive, Cell::Dead, Cell::Dead, Cell::Dead, Cell::Alive,
    ]
}

/// Whether linear index `i` is one of the positions a `rows x cols`
/// stamp anchored at `(row, col)` writes, with toroidal wraparound.
pub open spec fn in_stamp(
    w: nat,
    h: nat,
    row: nat,
    col: nat,
    rows: nat,
    cols: nat,
    i: int,
) -> bool {
    exists|dr: nat, dc: nat|
        dr < rows && dc < cols && i == #[trigger] wrap_index(w, h, row, col, dr, dc)
}

/// Whether linear index `i` is the place one of the pairs in `pairs`,
/// read as `(row, column)`, names in a row-major grid of width `w`.
pub open spec fn marked_alive(pairs: Seq<(u32, u32)>, w: nat, k: int, i: int) -> bool {
    exists|j: int| 0 <= j < k && i == (#[trigger] pairs[j]).0 * w + pairs[j].1
}

/// Adding two distinct offsets below `m` to the same base gives two
/// distinct residues modulo `m`.
proof fn lemma_wrap_residue_injective(m: nat, x: nat, a: nat, b: nat)
    requires
        0 < m,
        a < m,
        b < m,
        a != b,
    ensures
        (x + a) % m != (x + b) % m,
{
    vstd::arithmetic::div_mod::lemma_fundamental_div_mod((x + a) as int, m as int);
    vstd::arithmetic::div_mod::lemma_fundamental_div_mod((x + b) as int, m as int);
    let qa = (x + a) as int / m as int;
    let qb = (x + b) as int / m as int;
    if (x + a) % m == (x + b) % m {
        assert(false) by (nonlinear_arith)
            requires
                x + a == m * qa + (x + a) % m,
                x + b == m * qb + (x + b) % m,
                (x + a) % m == (x + b) % m,
                0 <= a < m,
                0 <= b < m,
                a != b,
        ;
    }
}

/// A wrapped index always lands inside the `w * h` buffer.
pub proof fn lemma_wrap_index_bounds(w: nat, h: nat, r: nat, c: nat, dr: nat, dc: nat)
    requires
        0 < w,
        0 < h,
    ensures
        0 <= wrap_index(w, h, r, c, dr, dc) < w * h,
{
    let r1 = (r + dr) % h;
    let c1 = (c + dc) % w;
    assert(r1 * w + c1 < w * h) by (nonlinear_arith)
        requires
            0 <= r1 < h,
            0 <= c1 < w,
    ;
}

/// Within a window no larger than the grid, distinct stamp offsets
/// write distinct linear indices: the wrapped window never overlaps
/// itself.
pub proof fn lemma_wrap_index_injective(
    w: nat,
    h: nat,
    r: nat,
    c: nat,
    dr1: nat,
    dc1: nat,
    dr2: nat,
    dc2: nat,
)
    requires
        0 < w,
        0 < h,
        dr1 < h,
        dr2 < h,
        dc1 < w,
        dc2 < w,
        !(dr1 == dr2 && dc1 == dc2),
    ensures
        wrap_index(w, h, r, c, dr1, dc1) != wrap_index(w, h, r, c, dr2, dc2),
{
    let r1 = (r + dr1) % h;
    let c1 = (c + dc1) % w;
    let r2 = (r + dr2) % h;
    let c2 = (c + dc2) % w;
    if wrap_index(w, h, r, c, dr1, dc1) == wrap_index(w, h, r, c, dr2, dc2) {
        vstd::arithmetic::div_mod::lemma_fundamental_div_mod_converse(
            (r1 * w + c1) as int,
            w as int,
            r1 as int,
            c1 as int,
        );
        vstd::arithmetic::div_mod::lemma_fundamental_div_mod_converse(
            (r2 * w + c2) as int,
            w as int,
            r2 as int,
            c2 as int,
        );
        if dr1 != dr2 {
            lemma_wrap_residue_injective(h, r, dr1, dr2);
        } else {
            lemma_wrap_residue_injective(w, c, dc1, dc2);
        }
    }
}

/// The glyph a cell renders as.
pub open spec fn glyph(c: Cell) -> char {
    if c is Alive {
        '◼'
    } else {
        '◻'
    }
}

/// One rendered row: `w` glyphs followed by a newline.
pub open spec fn rendered_row(cells: Seq<Cell>, w: nat, r: nat) -> Seq<char> {
    Seq::new(w, |j: int| glyph(cells[r * w + j])) + seq!['\n']
}

/// The first `h` rendered rows of the grid, in order.
pub open spec fn rendered_grid(cells: Seq<Cell>, w: nat, h: nat) -> Seq<char>
    decreases h,
{
    if h == 0 {
        Seq::empty()
    } else {
        rendered_grid(cells, w, (h - 1) as nat) + rendered_row(cells, w, (h - 1) as nat)
    }
}

} // verus!
