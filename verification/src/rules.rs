//! The mathematical model of the automaton: a generation is a `Seq<bool>`
//! of length `width * height`, row-major, and `step` is the transition
//! both engines are verified against.

use vstd::prelude::*;
use vstd::arithmetic::div_mod::{
    lemma_fundamental_div_mod, lemma_fundamental_div_mod_converse, lemma_mod_bound,
};

verus! {

/// Numeric value of a cell: an alive cell contributes 1 to a neighbor count.
pub open spec fn b2n(b: bool) -> nat {
    if b {
        1nat
    } else {
        0nat
    }
}

/// The coordinate one step before `i` on a ring of size `n` (toroidal wrap).
pub open spec fn wrap_dec(i: nat, n: nat) -> nat
    recommends
        i < n,
{
    if i == 0 {
        (n - 1) as nat
    } else {
        (i - 1) as nat
    }
}

/// The coordinate one step after `i` on a ring of size `n` (toroidal wrap).
pub open spec fn wrap_inc(i: nat, n: nat) -> nat
    recommends
        i < n,
{
    if i + 1 == n {
        0nat
    } else {
        (i + 1) as nat
    }
}

/// Row-major flattened index of `(row, col)` on a grid `width` cells wide.
pub open spec fn cell_index(width: nat, row: nat, col: nat) -> nat {
    row * width + col
}

/// Whether the cell at `(row, col)` is alive in generation `g`.
pub open spec fn alive_at(g: Seq<bool>, width: nat, row: nat, col: nat) -> bool
    recommends
        cell_index(width, row, col) < g.len(),
{
    g[cell_index(width, row, col) as int]
}

/// Number of alive cells among the eight toroidal neighbors of `(row, col)`.
///
/// Each of the eight wrapped positions contributes separately, so on grids
/// narrower than three cells the same cell may be counted more than once,
/// exactly as the delta-window computation does.
pub open spec fn live_neighbors(g: Seq<bool>, width: nat, height: nat, row: nat, col: nat) -> nat
    recommends
        row < height,
        col < width,
        g.len() == width * height,
{
    let rn = wrap_dec(row, height);
    let rs = wrap_inc(row, height);
    let cw = wrap_dec(col, width);
    let ce = wrap_inc(col, width);
    b2n(alive_at(g, width, rn, cw)) + b2n(alive_at(g, width, rn, col)) + b2n(
        alive_at(g, width, rn, ce),
    ) + b2n(alive_at(g, width, row, cw)) + b2n(alive_at(g, width, row, ce)) + b2n(
        alive_at(g, width, rs, cw),
    ) + b2n(alive_at(g, width, rs, col)) + b2n(alive_at(g, width, rs, ce))
}

/// The rule table: a live cell survives with two or three live neighbors,
/// a dead cell is born with exactly three, every other cell is dead next
/// generation.
pub open spec fn next_state(alive: bool, neighbors: nat) -> bool {
    if alive {
        neighbors == 2 || neighbors == 3
    } else {
        neighbors == 3
    }
}

/// One full generation step of a `width` x `height` toroidal grid.
pub open spec fn step(g: Seq<bool>, width: nat, height: nat) -> Seq<bool>
    recommends
        width >= 1,
        g.len() == width * height,
{
    Seq::new(
        width * height,
        |i: int|
            next_state(
                g[i],
                live_neighbors(g, width, height, (i / width as int) as nat, (i % width as int) as nat),
            ),
    )
}

/// `n` generation steps in a row.
pub open spec fn step_n(g: Seq<bool>, width: nat, height: nat, n: nat) -> Seq<bool>
    decreases n,
{
    if n == 0 {
        g
    } else {
        step(step_n(g, width, height, (n - 1) as nat), width, height)
    }
}

/// Generation `g` with the cell at flattened index `i` flipped.
pub open spec fn toggled(g: Seq<bool>, i: int) -> Seq<bool>
    recommends
        0 <= i < g.len(),
{
    g.update(i, !g[i])
}

/// The deterministic stripe seeding pattern: cell `i` starts alive exactly
/// when `i % 2 == 0` or `i % 7 == 0`.
pub open spec fn stripe_pattern(n: nat) -> Seq<bool> {
    Seq::new(n, |i: int| i % 2 == 0 || i % 7 == 0)
}

/// Generation `g` is `g0` with the first `k` coordinates of `coords`
/// marked alive: a cell is alive exactly when it already was in `g0` or
/// some listed coordinate flattens onto it.
pub open spec fn sets_applied(
    g0: Seq<bool>,
    width: nat,
    coords: Seq<(u32, u32)>,
    k: int,
    g: Seq<bool>,
) -> bool {
    &&& g.len() == g0.len()
    &&& forall|i: int|
        0 <= i < g.len() ==> g[i] == (g0[i] || exists|j: int|
            0 <= j < k && cell_index(width, coords[j].0 as nat, coords[j].1 as nat) == i)
}

/// Marking one more listed coordinate alive preserves `sets_applied`.
pub proof fn lemma_sets_applied_step(
    g0: Seq<bool>,
    width: nat,
    coords: Seq<(u32, u32)>,
    k: int,
    g: Seq<bool>,
    idx: int,
)
    requires
        sets_applied(g0, width, coords, k, g),
        0 <= k < coords.len(),
        idx == cell_index(width, coords[k].0 as nat, coords[k].1 as nat),
        0 <= idx < g.len(),
    ensures
        sets_applied(g0, width, coords, k + 1, g.update(idx, true)),
{
    let g2 = g.update(idx, true);
    assert forall|i: int| 0 <= i < g2.len() implies g2[i] == (g0[i] || exists|j: int|
        0 <= j < k + 1 && cell_index(width, coords[j].0 as nat, coords[j].1 as nat) == i) by {
        if i == idx {
            assert(g2[i]);
            assert(0 <= k < k + 1 && cell_index(width, coords[k].0 as nat, coords[k].1 as nat)
                == i);
        } else {
            assert(g2[i] == g[i]);
            if exists|j: int|
                0 <= j < k + 1 && cell_index(width, coords[j].0 as nat, coords[j].1 as nat) == i {
                let j = choose|j: int|
                    0 <= j < k + 1 && cell_index(width, coords[j].0 as nat, coords[j].1 as nat)
                        == i;
                assert(j != k);
                assert(0 <= j < k && cell_index(width, coords[j].0 as nat, coords[j].1 as nat)
                    == i);
            }
        }
    }
}

/// In-bounds coordinates flatten to an index below `width * height`.
pub proof fn lemma_cell_index_bounds(width: nat, height: nat, row: nat, col: nat)
    requires
        row < height,
        col < width,
    ensures
        cell_index(width, row, col) < width * height,
{
    assert(row * width + col < width * height) by (nonlinear_arith)
        requires
            row < height,
            col < width,
    ;
}

/// Flattening and the division/remainder pair are inverse to each other.
pub proof fn lemma_cell_index_div_mod(width: nat, row: nat, col: nat)
    requires
        col < width,
    ensures
        cell_index(width, row, col) as int / width as int == row,
        cell_index(width, row, col) as int % width as int == col,
{
    lemma_fundamental_div_mod_converse(
        cell_index(width, row, col) as int,
        width as int,
        row as int,
        col as int,
    );
}

/// Every flattened index below `width * height` comes from exactly the
/// coordinates its division and remainder by `width` name, and they are
/// in bounds.
pub proof fn lemma_flat_index_coords(width: nat, height: nat, i: int)
    requires
        width >= 1,
        0 <= i < width * height,
    ensures
        0 <= i / (width as int),
        i / (width as int) < height,
        0 <= i % (width as int) < width,
        cell_index(width, (i / (width as int)) as nat, (i % (width as int)) as nat) == i,
{
    let w = width as int;
    lemma_fundamental_div_mod(i, w);
    lemma_mod_bound(i, w);
    assert(i / w >= 0) by (nonlinear_arith)
        requires
            w >= 1,
            i >= 0,
    ;
    assert(i == w * (i / w) + i % w);
    assert(i / w < height) by (nonlinear_arith)
        requires
            w >= 1,
            i < w * height,
            i == w * (i / w) + i % w,
            0 <= i % w,
            0 <= i / w,
    ;
}

} // verus!
