use vstd::prelude::*;
use crate::cell::{Cell, live_count};
use crate::model::{live_neighbors, step, step_n, wrap_index};
use crate::universe::Universe;

verus! {

/// Determinism: the next generation is a function of the current cell
/// buffer and the dimensions alone, so two universes in the same state
/// step to the same state. Together with `tick`'s contract, which pins
/// its result to `step` of the prior state, a second `tick` from the
/// same starting grid always yields the same grid.
pub proof fn lemma_tick_deterministic(a: Universe, b: Universe)
    requires
        a.spec_width() == b.spec_width(),
        a.spec_height() == b.spec_height(),
        a.cells_view() == b.cells_view(),
    ensures
        step(a.cells_view(), a.spec_width() as nat, a.spec_height() as nat) == step(
            b.cells_view(),
            b.spec_width() as nat,
            b.spec_height() as nat,
        ),
{
}

/// Toroidal wraparound: on an N x N grid the corner cell (0, 0) counts
/// the diagonally wrapped cell (N-1, N-1) and the edge-wrapped cells
/// (N-1, 0) and (0, N-1) among its neighbors — each live one of them
/// contributes to its neighbor count.
pub proof fn lemma_toroidal_wraparound(cells: Seq<Cell>, n: nat)
    requires
        n >= 2,
        cells.len() == n * n,
    ensures
        live_neighbors(cells, n, n, 0, 0) >= live_count(cells[(n - 1) * n + (n - 1)])
            + live_count(cells[(n - 1) * n]) + live_count(cells[n - 1]),
{
    vstd::arithmetic::div_mod::lemma_small_mod((n - 1) as nat, n);
    vstd::arithmetic::div_mod::lemma_small_mod(0, n);
    assert(wrap_index(n, n, 0, 0, (n - 1) as nat, (n - 1) as nat) == (n - 1) * n + (n - 1));
    assert(wrap_index(n, n, 0, 0, (n - 1) as nat, 0) == (n - 1) * n);
    assert(wrap_index(n, n, 0, 0, 0, (n - 1) as nat) == n - 1);
}

/// A pattern the transition rule leaves unchanged stays unchanged
/// after any number of generations.
pub proof fn lemma_stable_pattern_persists(cells: Seq<Cell>, w: nat, h: nat, n: nat)
    requires
        step(cells, w, h) == cells,
    ensures
        step_n(cells, w, h, n) == cells,
    decreases n,
{
    if n > 0 {
        lemma_stable_pattern_persists(cells, w, h, (n - 1) as nat);
    }
}

/// A 4 x 4 grid holding a single 2 x 2 block of live cells.
pub open spec fn block_grid() -> Seq<Cell> {
    seq![
        Cell::Dead, Cell::Dead, Cell::Dead, Cell::Dead,
        Cell::Dead, Cell::Alive, Cell::Alive, Cell::Dead,
        Cell::Dead, Cell::Alive, Cell::Alive, Cell::Dead,
        Cell::Dead, Cell::Dead, Cell::Dead, Cell::Dead,
    ]
}

/// A 2 x 2 block of 4 live cells is stable: each live cell has exactly
/// 3 live neighbors and no dead cell reaches 3, so the grid is a fixed
/// point of the transition rule and, by `lemma_stable_pattern_persists`,
/// is unchanged after any number of generations.
#[verifier::rlimit(100)]
pub proof fn lemma_block_is_stable(n: nat)
    ensures
        step(block_grid(), 4, 4) == block_grid(),
        step_n(block_grid(), 4, 4, n) == block_grid(),
{
    let g = block_grid();
    assert(step(g, 4, 4)[0] == g[0]);
    assert(step(g, 4, 4)[1] == g[1]);
    assert(step(g, 4, 4)[2] == g[2]);
    assert(step(g, 4, 4)[3] == g[3]);
    assert(step(g, 4, 4)[4] == g[4]);
    assert(step(g, 4, 4)[5] == g[5]);
    assert(step(g, 4, 4)[6] == g[6]);
    assert(step(g, 4, 4)[7] == g[7]);
    assert(step(g, 4, 4)[8] == g[8]);
    assert(step(g, 4, 4)[9] == g[9]);
    assert(step(g, 4, 4)[10] == g[10]);
    assert(step(g, 4, 4)[11] == g[11]);
    assert(step(g, 4, 4)[12] == g[12]);
    assert(step(g, 4, 4)[13] == g[13]);
    assert(step(g, 4, 4)[14] == g[14]);
    assert(step(g, 4, 4)[15] == g[15]);
    assert(step(g, 4, 4) =~= g);
    lemma_stable_pattern_persists(g, 4, 4, n);
}

} // verus!
