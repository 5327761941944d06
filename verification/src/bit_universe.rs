//! The packed engine: one bit of storage per grid cell, kept in a
//! `fixedbitset::FixedBitSet` behind the trusted boundary of `bitset`.
//! Its transition is pinned to the same `rules::step` as the wide engine,
//! so the two representations provably produce identical generations.

use vstd::prelude::*;
use fixedbitset::FixedBitSet;
use crate::cell::GridError;
use crate::bitset::{bits_blocks, bits_get, bits_new, bits_of, bits_set, bits_toggle};
use crate::rules::{
    alive_at, cell_index, live_neighbors, step, stripe_pattern, toggled, wrap_dec, wrap_inc,
    lemma_cell_index_bounds, lemma_cell_index_div_mod,
};

verus! {

/// A fixed-size toroidal grid, one bit per cell, row-major.
#[derive(Debug)]
pub struct BitUniverse {
    width: u32,
    height: u32,
    cells: FixedBitSet,
}

impl View for BitUniverse {
    type V = Seq<bool>;

    /// The abstract generation: the bits of the backing set, row-major.
    closed spec fn view(&self) -> Seq<bool> {
        bits_of(self.cells)
    }
}

impl BitUniverse {
    /// The grid width as a mathematical integer.
    pub closed spec fn spec_width(&self) -> nat {
        self.width as nat
    }

    /// The grid height as a mathematical integer.
    pub closed spec fn spec_height(&self) -> nat {
        self.height as nat
    }

    /// Structural invariant: positive dimensions and exactly
    /// `width * height` bits of storage, a count that fits an index.
    pub open spec fn wf(&self) -> bool {
        &&& self.spec_width() >= 1
        &&& self.spec_height() >= 1
        &&& self@.len() == self.spec_width() * self.spec_height()
        &&& self@.len() <= usize::MAX
    }

    /// Flattened index of in-bounds `(row, column)`.
    fn get_index(&self, row: u32, column: u32) -> (idx: usize)
        requires
            self.wf(),
            (row as nat) < self.spec_height(),
            (column as nat) < self.spec_width(),
        ensures
            idx as nat == cell_index(self.spec_width(), row as nat, column as nat),
            idx < self@.len(),
    {
        proof {
            lemma_cell_index_bounds(
                self.spec_width(),
                self.spec_height(),
                row as nat,
                column as nat,
            );
        }
        let idx64: u64 = (row as u64) * (self.width as u64) + (column as u64);
        assert(idx64 as int <= usize::MAX as int);
        idx64 as usize
    }

    /// Whether the cell at in-bounds `(row, column)` is alive.
    fn cell_at(&self, row: u32, column: u32) -> (b: bool)
        requires
            self.wf(),
            (row as nat) < self.spec_height(),
            (column as nat) < self.spec_width(),
        ensures
            b == alive_at(self@, self.spec_width(), row as nat, column as nat),
    {
        let idx = self.get_index(row, column);
        bits_get(&self.cells, idx)
    }

    /// Alive cells among the eight toroidal neighbors of `(row, column)`,
    /// found from the four precomputed wrapped row and column neighbors
    /// and eight direct lookups, all on the current generation.
    #[verifier::rlimit(100)]
    #[verifier::spinoff_prover]
    fn live_neighbor_count(&self, row: u32, column: u32) -> (count: u8)
        requires
            self.wf(),
            (row as nat) < self.spec_height(),
            (column as nat) < self.spec_width(),
        ensures
            count as nat == live_neighbors(
                self@,
                self.spec_width(),
                self.spec_height(),
                row as nat,
                column as nat,
            ),
    {
        let ghost w = self.spec_width();
        let ghost h = self.spec_height();
        let north = if row == 0 {
            self.height - 1
        } else {
            row - 1
        };
        let south = if row == self.height - 1 {
            0
        } else {
            row + 1
        };
        let west = if column == 0 {
            self.width - 1
        } else {
            column - 1
        };
        let east = if column == self.width - 1 {
            0
        } else {
            column + 1
        };
        proof {
            assert(north as nat == wrap_dec(row as nat, h));
            assert(south as nat == wrap_inc(row as nat, h));
            assert(west as nat == wrap_dec(column as nat, w));
            assert(east as nat == wrap_inc(column as nat, w));
        }
        let nw = self.cell_at(north, west);
        let nn = self.cell_at(north, column);
        let ne = self.cell_at(north, east);
        let ww = self.cell_at(row, west);
        let ee = self.cell_at(row, east);
        let sw = self.cell_at(south, west);
        let ss = self.cell_at(south, column);
        let se = self.cell_at(south, east);
        let count: u8 = (if nw { 1 } else { 0 }) + (if nn { 1 } else { 0 }) + (if ne {
            1
        } else {
            0
        }) + (if ww { 1 } else { 0 }) + (if ee { 1 } else { 0 }) + (if sw { 1 } else { 0 }) + (if ss {
            1
        } else {
            0
        }) + (if se { 1 } else { 0 });
        count
    }

    /// Builds a packed grid seeded with the deterministic stripe pattern.
    ///
    /// Fails exactly when a dimension is zero or the cell count does not
    /// fit in memory's index range.
    pub fn new(width: u32, height: u32) -> (r: Result<BitUniverse, GridError>)
        ensures
            r is Err <==> (width == 0 || height == 0 || width as int * height as int
                > usize::MAX as int),
            r matches Err(e) ==> e == GridError::ConfigurationError,
            r matches Ok(u) ==> {
                &&& u.wf()
                &&& u.spec_width() == width as nat
                &&& u.spec_height() == height as nat
                &&& u@ == stripe_pattern((width as nat) * (height as nat))
            },
    {
        if width == 0 || height == 0 {
            return Err(GridError::ConfigurationError);
        }
        let size: usize = match (width as usize).checked_mul(height as usize) {
            Some(s) => s,
            None => {
                return Err(GridError::ConfigurationError);
            },
        };
        let mut cells = bits_new(size);
        let mut i: usize = 0;
        while i < size
            invariant
                i <= size,
                bits_of(cells).len() == size as nat,
                forall|j: int|
                    0 <= j < i as int ==> bits_of(cells)[j] == (j % 2 == 0 || j % 7 == 0),
            decreases size - i,
        {
            bits_set(&mut cells, i, i % 2 == 0 || i % 7 == 0);
            i = i + 1;
        }
        let u = BitUniverse { width, height, cells };
        proof {
            assert(u@ =~= stripe_pattern((width as nat) * (height as nat)));
        }
        Ok(u)
    }

    /// Advances the grid one generation: the whole old generation is read,
    /// a fresh bit buffer is written, and the new buffer replaces the old
    /// one atomically.
    pub fn tick(&mut self)
        requires
            old(self).wf(),
        ensures
            final(self).wf(),
            final(self).spec_width() == old(self).spec_width(),
            final(self).spec_height() == old(self).spec_height(),
            final(self)@ == step(old(self)@, old(self).spec_width(), old(self).spec_height()),
    {
        let ghost g0 = self@;
        let ghost w = self.spec_width();
        let ghost h = self.spec_height();
        let size: usize = self.size();
        let mut next = bits_new(size);
        let mut row: u32 = 0;
        while row < self.height
            invariant
                self == old(self),
                self.wf(),
                g0 == self@,
                w == self.spec_width(),
                h == self.spec_height(),
                row as nat <= h,
                size as nat == w * h,
                bits_of(next).len() == size as nat,
                forall|i: int|
                    0 <= i < (row as nat * w) ==> bits_of(next)[i] == step(g0, w, h)[i],
            decreases self.height - row,
        {
            let mut col: u32 = 0;
            while col < self.width
                invariant
                    self == old(self),
                    self.wf(),
                    g0 == self@,
                    w == self.spec_width(),
                    h == self.spec_height(),
                    (row as nat) < h,
                    col as nat <= w,
                    size as nat == w * h,
                    bits_of(next).len() == size as nat,
                    forall|i: int|
                        0 <= i < (row as nat * w + col as nat) ==> bits_of(next)[i] == step(
                            g0,
                            w,
                            h,
                        )[i],
                decreases self.width - col,
            {
                let idx = self.get_index(row, col);
                let alive = self.cell_at(row, col);
                let neighbors = self.live_neighbor_count(row, col);
                let next_bit = if alive {
                    neighbors == 2 || neighbors == 3
                } else {
                    neighbors == 3
                };
                proof {
                    lemma_cell_index_bounds(w, h, row as nat, col as nat);
                    lemma_cell_index_div_mod(w, row as nat, col as nat);
                    assert(next_bit == step(g0, w, h)[idx as int]);
                }
                bits_set(&mut next, idx, next_bit);
                col = col + 1;
            }
            proof {
                assert((row as nat + 1) * w == row as nat * w + w) by (nonlinear_arith);
            }
            row = row + 1;
        }
        self.cells = next;
        proof {
            assert(h * w == w * h) by (nonlinear_arith);
            assert(self@ =~= step(g0, w, h));
        }
    }

    /// The number of cells, `width * height`.
    fn size(&self) -> (r: usize)
        requires
            self.wf(),
        ensures
            r as nat == self.spec_width() * self.spec_height(),
            r as nat == self@.len(),
    {
        let prod: u64 = (self.width as u64) * (self.height as u64);
        assert(prod as int <= usize::MAX as int);
        prod as usize
    }

    /// The grid width.
    pub fn width(&self) -> (r: u32)
        ensures
            r as nat == self.spec_width(),
    {
        self.width
    }

    /// The grid height.
    pub fn height(&self) -> (r: u32)
        ensures
            r as nat == self.spec_height(),
    {
        self.height
    }

    /// A read-only view of the current generation as packed 32-bit words:
    /// bit `i % 32` (least significant first) of word `i / 32` is cell `i`
    /// of the row-major order.  Valid until the next mutating call.
    pub fn cells(&self) -> (r: &[u32])
        ensures
            r@.len() as int == (self@.len() + 31) / 32,
            forall|i: int|
                0 <= i < self@.len() ==> self@[i] == ((r@[i / 32] >> ((i % 32) as u32)) & 1u32
                    == 1u32),
    {
        bits_blocks(&self.cells)
    }

    /// Flips the cell at `(row, column)`.  Coordinates must be in bounds:
    /// the packed engine makes no runtime bounds check of its own.
    pub fn toggle_cell(&mut self, row: u32, column: u32)
        requires
            old(self).wf(),
            (row as nat) < old(self).spec_height(),
            (column as nat) < old(self).spec_width(),
        ensures
            final(self).wf(),
            final(self).spec_width() == old(self).spec_width(),
            final(self).spec_height() == old(self).spec_height(),
            final(self)@ == toggled(
                old(self)@,
                cell_index(old(self).spec_width(), row as nat, column as nat) as int,
            ),
    {
        let idx = self.get_index(row, column);
        bits_toggle(&mut self.cells, idx);
    }
}

} // verus!
