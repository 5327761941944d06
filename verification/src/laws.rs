//! Laws of the transition model.  Together with the `tick` contracts of
//! both engines — each pins its result to `rules::step` of the previous
//! generation — these state the global properties of the automaton.

use vstd::prelude::*;
use crate::rules::{
    alive_at, live_neighbors, step, step_n, toggled, lemma_cell_index_bounds,
    lemma_flat_index_coords,
};

verus! {

/// Determinism: the next generation is a function of the current one
/// alone.  Since each engine's `tick` ensures that the new state equals
/// `step` of the old one, two runs from one initial generation produce
/// the same next generation.
pub proof fn lemma_step_deterministic(g1: Seq<bool>, g2: Seq<bool>, width: nat, height: nat)
    requires
        g1 == g2,
    ensures
        step(g1, width, height) == step(g2, width, height),
{
}

/// Equivalence of representations: the wide and the packed engine both
/// ensure `tick` equals `step`, so from identical initial states any
/// number of ticks yields identical patterns on either engine.
pub proof fn lemma_representations_equivalent(
    g1: Seq<bool>,
    g2: Seq<bool>,
    width: nat,
    height: nat,
    n: nat,
)
    requires
        g1 == g2,
    ensures
        step_n(g1, width, height, n) == step_n(g2, width, height, n),
{
}

/// Toggling one cell twice restores the generation.
pub proof fn lemma_toggle_self_inverse(g: Seq<bool>, i: int)
    requires
        0 <= i < g.len(),
    ensures
        toggled(toggled(g, i), i) == g,
{
    assert(toggled(toggled(g, i), i) =~= g);
}

/// On a grid whose only alive cell is at `(0, 0)`, every cell alive or
/// not is decided by `(r, c) == (0, 0)`.
proof fn lemma_lone_origin_characterized(g: Seq<bool>, width: nat, height: nat)
    requires
        width >= 1,
        height >= 1,
        g.len() == width * height,
        g[0],
        forall|i: int| 1 <= i < g.len() ==> !g[i],
    ensures
        forall|r: nat, c: nat|
            r < height && c < width ==> (#[trigger] alive_at(g, width, r, c) == (r == 0 && c
                == 0)),
{
    assert forall|r: nat, c: nat| r < height && c < width implies (#[trigger] alive_at(
        g,
        width,
        r,
        c,
    ) == (r == 0 && c == 0)) by {
        lemma_cell_index_bounds(width, height, r, c);
        if r >= 1 {
            assert(r * width + c >= 1) by (nonlinear_arith)
                requires
                    r >= 1,
                    width >= 1,
                    c >= 0,
            ;
        }
    }
}

/// Toroidal wraparound: the neighborhood of `(0, 0)` reaches the opposite
/// edges.  With a single alive cell at `(0, 0)`, the corner `(h-1, w-1)`
/// and the wrapped edge cells `(h-1, 0)` and `(0, w-1)` each count one
/// live neighbor, while `(0, 0)` itself — whose eight neighbors are all
/// dead — counts zero: the grid is wrap-connected, not bounded.
pub proof fn lemma_toroidal_wraparound(g: Seq<bool>, width: nat, height: nat)
    requires
        width >= 3,
        height >= 3,
        g.len() == width * height,
        g[0],
        forall|i: int| 1 <= i < g.len() ==> !g[i],
    ensures
        live_neighbors(g, width, height, (height - 1) as nat, (width - 1) as nat) == 1,
        live_neighbors(g, width, height, (height - 1) as nat, 0) == 1,
        live_neighbors(g, width, height, 0, (width - 1) as nat) == 1,
        live_neighbors(g, width, height, 0, 0) == 0,
{
    lemma_lone_origin_characterized(g, width, height);
}

/// The 2x2 block pattern: the cells at rows `r0` and `r0 + 1`, columns
/// `c0` and `c0 + 1`, alive, every other cell dead.
pub open spec fn block_at(g: Seq<bool>, width: nat, height: nat, r0: nat, c0: nat) -> bool {
    &&& g.len() == width * height
    &&& forall|r: nat, c: nat|
        r < height && c < width ==> (#[trigger] alive_at(g, width, r, c) == (r0 <= r && r <= r0
            + 1 && c0 <= c && c <= c0 + 1))
}

/// A 2x2 block away from the grid edges is a still life: one generation
/// step leaves the grid unchanged.
#[verifier::rlimit(100)]
#[verifier::spinoff_prover]
pub proof fn lemma_block_still_life(g: Seq<bool>, width: nat, height: nat, r0: nat, c0: nat)
    requires
        1 <= r0,
        r0 + 2 <= height - 1,
        1 <= c0,
        c0 + 2 <= width - 1,
        block_at(g, width, height, r0, c0),
    ensures
        step(g, width, height) == g,
{
    let s = step(g, width, height);
    assert forall|i: int| 0 <= i < g.len() implies s[i] == g[i] by {
        lemma_flat_index_coords(width, height, i);
        let r = (i / (width as int)) as nat;
        let c = (i % (width as int)) as nat;
        assert(alive_at(g, width, r, c) == g[i]);
    }
    assert(s =~= g);
}

/// Idempotence of stable patterns: a 2x2 block away from the grid edges
/// is unchanged by any number of generation steps.
pub proof fn lemma_block_still_life_iterated(
    g: Seq<bool>,
    width: nat,
    height: nat,
    r0: nat,
    c0: nat,
    n: nat,
)
    requires
        1 <= r0,
        r0 + 2 <= height - 1,
        1 <= c0,
        c0 + 2 <= width - 1,
        block_at(g, width, height, r0, c0),
    ensures
        step_n(g, width, height, n) == g,
    decreases n,
{
    if n > 0 {
        lemma_block_still_life_iterated(g, width, height, r0, c0, (n - 1) as nat);
        lemma_block_still_life(g, width, height, r0, c0);
    }
}

} // verus!
