//! The wide engine: one `Cell` of storage per grid cell.

use vstd::prelude::*;
use vstd::pervasive::VecAdditionalExecFns;
use crate::cell::{Cell, GridError, cell_alive, cell_is_alive};
use crate::rules::{
    alive_at, cell_index, live_neighbors, sets_applied, step, stripe_pattern, toggled,
    wrap_dec, wrap_inc, lemma_cell_index_bounds, lemma_cell_index_div_mod, lemma_sets_applied_step,
};

verus! {

/// A fixed-size toroidal grid, one storage unit per cell, row-major.
#[derive(Debug)]
pub struct Universe {
    width: u32,
    height: u32,
    cells: Vec<Cell>,
}

/// Whether the coordinate pair `(row, col)` of `rc` lies on a
/// `width` x `height` grid.
pub open spec fn coord_in_bounds(width: nat, height: nat, rc: (u32, u32)) -> bool {
    (rc.0 as nat) < height && (rc.1 as nat) < width
}

/// One glyph per cell in the text rendering.
pub open spec fn glyph(alive: bool) -> char {
    if alive {
        '◼'
    } else {
        '◻'
    }
}

/// The glyphs of row `row`, without the trailing line break.
pub open spec fn render_row(g: Seq<bool>, width: nat, row: nat) -> Seq<char> {
    Seq::new(width, |c: int| glyph(alive_at(g, width, row, c as nat)))
}

/// The first `rows` rows of the text rendering, each row followed by `'\n'`.
pub open spec fn render_grid(g: Seq<bool>, width: nat, rows: nat) -> Seq<char>
    decreases rows,
{
    if rows == 0 {
        Seq::<char>::empty()
    } else {
        render_grid(g, width, (rows - 1) as nat) + render_row(g, width, (rows - 1) as nat)
            + seq!['\n']
    }
}

impl View for Universe {
    type V = Seq<bool>;

    /// The abstract generation: cell `i` of the row-major sequence is
    /// `true` exactly when the stored cell is `Alive`.
    closed spec fn view(&self) -> Seq<bool> {
        self.cells@.map_values(|c: Cell| cell_alive(c))
    }
}

impl Universe {
    /// The grid width as a mathematical integer.
    pub closed spec fn spec_width(&self) -> nat {
        self.width as nat
    }

    /// The grid height as a mathematical integer.
    pub closed spec fn spec_height(&self) -> nat {
        self.height as nat
    }

    /// Structural invariant: positive dimensions and exactly
    /// `width * height` cells.
    pub open spec fn wf(&self) -> bool {
        &&& self.spec_width() >= 1
        &&& self.spec_height() >= 1
        &&& self@.len() == self.spec_width() * self.spec_height()
    }

    /// Flattened index of in-bounds `(row, column)`.
    fn get_index(&self, row: u32, column: u32) -> (idx: usize)
        requires
            self.wf(),
            (row as nat) < self.spec_height(),
            (column as nat) < self.spec_width(),
        ensures
            idx as nat == cell_index(self.spec_width(), row as nat, column as nat),
            idx < self@.len(),
    {
        proof {
            lemma_cell_index_bounds(
                self.spec_width(),
                self.spec_height(),
                row as nat,
                column as nat,
            );
        }
        let n: usize = self.cells.len();
        let idx64: u64 = (row as u64) * (self.width as u64) + (column as u64);
        assert(idx64 < n as u64);
        idx64 as usize
    }

    /// Whether the cell at in-bounds `(row, column)` is alive.
    fn cell_at(&self, row: u32, column: u32) -> (b: bool)
        requires
            self.wf(),
            (row as nat) < self.spec_height(),
            (column as nat) < self.spec_width(),
        ensures
            b == alive_at(self@, self.spec_width(), row as nat, column as nat),
    {
        let idx = self.get_index(row, column);
        cell_is_alive(self.cells[idx])
    }

    /// Alive cells among the eight toroidal neighbors of `(row, column)`,
    /// read from the current generation only.
    #[verifier::rlimit(100)]
    #[verifier::spinoff_prover]
    fn live_neighbor_count(&self, row: u32, column: u32) -> (count: u8)
        requires
            self.wf(),
            (row as nat) < self.spec_height(),
            (column as nat) < self.spec_width(),
        ensures
            count as nat == live_neighbors(
                self@,
                self.spec_width(),
                self.spec_height(),
                row as nat,
                column as nat,
            ),
    {
        let ghost g = self@;
        let ghost w = self.spec_width();
        let ghost h = self.spec_height();
        let north = if row == 0 {
            self.height - 1
        } else {
            row - 1
        };
        let south = if row == self.height - 1 {
            0
        } else {
            row + 1
        };
        let west = if column == 0 {
            self.width - 1
        } else {
            column - 1
        };
        let east = if column == self.width - 1 {
            0
        } else {
            column + 1
        };
        proof {
            assert(north as nat == wrap_dec(row as nat, h));
            assert(south as nat == wrap_inc(row as nat, h));
            assert(west as nat == wrap_dec(column as nat, w));
            assert(east as nat == wrap_inc(column as nat, w));
        }
        let nw = self.cell_at(north, west);
        let nn = self.cell_at(north, column);
        let ne = self.cell_at(north, east);
        let ww = self.cell_at(row, west);
        let ee = self.cell_at(row, east);
        let sw = self.cell_at(south, west);
        let ss = self.cell_at(south, column);
        let se = self.cell_at(south, east);
        let count: u8 = (if nw { 1 } else { 0 }) + (if nn { 1 } else { 0 }) + (if ne {
            1
        } else {
            0
        }) + (if ww { 1 } else { 0 }) + (if ee { 1 } else { 0 }) + (if sw { 1 } else { 0 }) + (if ss {
            1
        } else {
            0
        }) + (if se { 1 } else { 0 });
        count
    }

    /// Builds a grid seeded with the deterministic stripe pattern.
    ///
    /// Fails exactly when a dimension is zero or the cell count does not
    /// fit in memory's index range.
    pub fn new(width: u32, height: u32) -> (r: Result<Universe, GridError>)
        ensures
            r is Err <==> (width == 0 || height == 0 || width as int * height as int
                > usize::MAX as int),
            r matches Err(e) ==> e == GridError::ConfigurationError,
            r matches Ok(u) ==> {
                &&& u.wf()
                &&& u.spec_width() == width as nat
                &&& u.spec_height() == height as nat
                &&& u@ == stripe_pattern((width as nat) * (height as nat))
            },
    {
        if width == 0 || height == 0 {
            return Err(GridError::ConfigurationError);
        }
        let size: usize = match (width as usize).checked_mul(height as usize) {
            Some(s) => s,
            None => {
                return Err(GridError::ConfigurationError);
            },
        };
        let mut cells: Vec<Cell> = Vec::new();
        let mut i: usize = 0;
        while i < size
            invariant
                i <= size,
                cells@.len() == i as nat,
                forall|j: int|
                    0 <= j < i as int ==> cell_alive(cells@[j]) == (j % 2 == 0 || j % 7 == 0),
            decreases size - i,
        {
            if i % 2 == 0 || i % 7 == 0 {
                cells.push(Cell::Alive);
            } else {
                cells.push(Cell::Dead);
            }
            i = i + 1;
        }
        let u = Universe { width, height, cells };
        proof {
            assert(u@ =~= stripe_pattern((width as nat) * (height as nat)));
        }
        Ok(u)
    }

    /// Builds a grid whose only alive cell is at flattened index `target`,
    /// the index being drawn by the caller from its randomness source.
    ///
    /// A `target` at or past `width * height` leaves every cell dead.
    pub fn new_single(width: u32, height: u32, target: usize) -> (r: Result<Universe, GridError>)
        ensures
            r is Err <==> (width == 0 || height == 0 || width as int * height as int
                > usize::MAX as int),
            r matches Err(e) ==> e == GridError::ConfigurationError,
            r matches Ok(u) ==> {
                &&& u.wf()
                &&& u.spec_width() == width as nat
                &&& u.spec_height() == height as nat
                &&& forall|i: int| 0 <= i < u@.len() ==> u@[i] == (i == target as int)
            },
    {
        if width == 0 || height == 0 {
            return Err(GridError::ConfigurationError);
        }
        let size: usize = match (width as usize).checked_mul(height as usize) {
            Some(s) => s,
            None => {
                return Err(GridError::ConfigurationError);
            },
        };
        let mut cells: Vec<Cell> = Vec::new();
        let mut i: usize = 0;
        while i < size
            invariant
                i <= size,
                cells@.len() == i as nat,
                forall|j: int| 0 <= j < i as int ==> cell_alive(cells@[j]) == (j == target as int),
            decreases size - i,
        {
            if i == target {
                cells.push(Cell::Alive);
            } else {
                cells.push(Cell::Dead);
            }
            i = i + 1;
        }
        Ok(Universe { width, height, cells })
    }

    /// Builds a grid from one caller-supplied coin flip per cell: cell `i`
    /// starts alive exactly when `flips[i]` is true.
    pub fn new_random(width: u32, height: u32, flips: &[bool]) -> (r: Result<Universe, GridError>)
        requires
            flips@.len() == width as int * height as int,
        ensures
            r is Err <==> (width == 0 || height == 0),
            r matches Err(e) ==> e == GridError::ConfigurationError,
            r matches Ok(u) ==> {
                &&& u.wf()
                &&& u.spec_width() == width as nat
                &&& u.spec_height() == height as nat
                &&& u@ == flips@
            },
    {
        if width == 0 || height == 0 {
            return Err(GridError::ConfigurationError);
        }
        let size: usize = flips.len();
        let mut cells: Vec<Cell> = Vec::new();
        let mut i: usize = 0;
        while i < size
            invariant
                i <= size,
                size == flips@.len(),
                cells@.len() == i as nat,
                forall|j: int| 0 <= j < i as int ==> cell_alive(cells@[j]) == flips@[j],
            decreases size - i,
        {
            if flips[i] {
                cells.push(Cell::Alive);
            } else {
                cells.push(Cell::Dead);
            }
            i = i + 1;
        }
        let u = Universe { width, height, cells };
        proof {
            assert(u@ =~= flips@);
        }
        Ok(u)
    }

    /// The cell storage as a read-only slice of the current generation.
    pub fn get_cells(&self) -> (r: &[Cell])
        ensures
            r@.len() == self@.len(),
            forall|i: int| 0 <= i < r@.len() ==> cell_alive(r@[i]) == self@[i],
    {
        self.cells.as_slice()
    }

    /// Marks each listed `(row, column)` alive; every other cell keeps its
    /// state.  Any out-of-bounds coordinate is reported as an `IndexError`
    /// and leaves the grid untouched.
    pub fn set_cells(&mut self, coords: &[(u32, u32)]) -> (r: Result<(), GridError>)
        requires
            old(self).wf(),
        ensures
            final(self).wf(),
            final(self).spec_width() == old(self).spec_width(),
            final(self).spec_height() == old(self).spec_height(),
            r is Err <==> exists|k: int|
                0 <= k < coords@.len() && !coord_in_bounds(
                    old(self).spec_width(),
                    old(self).spec_height(),
                    coords@[k],
                ),
            r matches Err(e) ==> e == GridError::IndexError && final(self)@ == old(self)@,
            r is Ok ==> sets_applied(
                old(self)@,
                old(self).spec_width(),
                coords@,
                coords@.len() as int,
                final(self)@,
            ),
    {
        let n: usize = coords.len();
        let mut k: usize = 0;
        while k < n
            invariant
                k <= n,
                n == coords@.len(),
                self == old(self),
                self.wf(),
                forall|j: int|
                    0 <= j < k as int ==> coord_in_bounds(
                        self.spec_width(),
                        self.spec_height(),
                        coords@[j],
                    ),
            decreases n - k,
        {
            let (row, col) = coords[k];
            if row >= self.height || col >= self.width {
                return Err(GridError::IndexError);
            }
            k = k + 1;
        }
        let ghost g0 = self@;
        let ghost w = self.spec_width();
        let ghost h = self.spec_height();
        let mut k: usize = 0;
        while k < n
            invariant
                k <= n,
                n == coords@.len(),
                self.wf(),
                self.spec_width() == w,
                self.spec_height() == h,
                g0 == old(self)@,
                w == old(self).spec_width(),
                forall|j: int| 0 <= j < n as int ==> coord_in_bounds(w, h, coords@[j]),
                sets_applied(g0, w, coords@, k as int, self@),
            decreases n - k,
        {
            let (row, col) = coords[k];
            let idx = self.get_index(row, col);
            let ghost before = self@;
            self.cells.set(idx, Cell::Alive);
            proof {
                assert(self@ =~= before.update(idx as int, true));
                lemma_sets_applied_step(g0, w, coords@, k as int, before, idx as int);
            }
            k = k + 1;
        }
        Ok(())
    }

    /// Reallocates the grid `width` cells wide, keeps the height, and
    /// resets every cell to `Dead`.  Fails exactly when the new width is
    /// zero or the new cell count does not fit in memory's index range.
    pub fn set_width(&mut self, width: u32) -> (r: Result<(), GridError>)
        requires
            old(self).wf(),
        ensures
            final(self).wf(),
            final(self).spec_height() == old(self).spec_height(),
            r is Err <==> (width == 0 || width as int * old(self).spec_height() as int
                > usize::MAX as int),
            r matches Err(e) ==> e == GridError::ConfigurationError && final(self).spec_width()
                == old(self).spec_width() && final(self)@ == old(self)@,
            r is Ok ==> {
                &&& final(self).spec_width() == width as nat
                &&& final(self)@.len() == width as nat * old(self).spec_height()
                &&& forall|i: int| 0 <= i < final(self)@.len() ==> !final(self)@[i]
            },
    {
        if width == 0 {
            return Err(GridError::ConfigurationError);
        }
        let size: usize = match (width as usize).checked_mul(self.height as usize) {
            Some(s) => s,
            None => {
                return Err(GridError::ConfigurationError);
            },
        };
        let cells = dead_cells(size);
        self.width = width;
        self.cells = cells;
        Ok(())
    }

    /// Reallocates the grid `height` cells tall, keeps the width, and
    /// resets every cell to `Dead`.  Fails exactly when the new height is
    /// zero or the new cell count does not fit in memory's index range.
    pub fn set_height(&mut self, height: u32) -> (r: Result<(), GridError>)
        requires
            old(self).wf(),
        ensures
            final(self).wf(),
            final(self).spec_width() == old(self).spec_width(),
            r is Err <==> (height == 0 || old(self).spec_width() as int * height as int
                > usize::MAX as int),
            r matches Err(e) ==> e == GridError::ConfigurationError && final(self).spec_height()
                == old(self).spec_height() && final(self)@ == old(self)@,
            r is Ok ==> {
                &&& final(self).spec_height() == height as nat
                &&& final(self)@.len() == old(self).spec_width() * height as nat
                &&& forall|i: int| 0 <= i < final(self)@.len() ==> !final(self)@[i]
            },
    {
        if height == 0 {
            return Err(GridError::ConfigurationError);
        }
        let size: usize = match (self.width as usize).checked_mul(height as usize) {
            Some(s) => s,
            None => {
                return Err(GridError::ConfigurationError);
            },
        };
        let cells = dead_cells(size);
        self.height = height;
        self.cells = cells;
        Ok(())
    }

    /// The grid width.
    pub fn width(&self) -> (r: u32)
        ensures
            r as nat == self.spec_width(),
    {
        self.width
    }

    /// The grid height.
    pub fn height(&self) -> (r: u32)
        ensures
            r as nat == self.spec_height(),
    {
        self.height
    }

    /// A read-only view of the current generation, one value per cell,
    /// valid until the next mutating call.
    pub fn cells(&self) -> (r: &[Cell])
        ensures
            r@.len() == self@.len(),
            forall|i: int| 0 <= i < r@.len() ==> cell_alive(r@[i]) == self@[i],
    {
        self.cells.as_slice()
    }

    /// Flips the cell at `(row, column)`; out-of-bounds coordinates are
    /// reported as an `IndexError` and leave the grid untouched.
    pub fn toggle_cell(&mut self, row: u32, column: u32) -> (r: Result<(), GridError>)
        requires
            old(self).wf(),
        ensures
            final(self).wf(),
            final(self).spec_width() == old(self).spec_width(),
            final(self).spec_height() == old(self).spec_height(),
            r is Err <==> !((row as nat) < old(self).spec_height() && (column as nat) < old(
                self,
            ).spec_width()),
            r matches Err(e) ==> e == GridError::IndexError && final(self)@ == old(self)@,
            r is Ok ==> final(self)@ == toggled(
                old(self)@,
                cell_index(old(self).spec_width(), row as nat, column as nat) as int,
            ),
    {
        if row >= self.height || column >= self.width {
            return Err(GridError::IndexError);
        }
        let idx = self.get_index(row, column);
        let next = match self.cells[idx] {
            Cell::Alive => Cell::Dead,
            Cell::Dead => Cell::Alive,
        };
        self.cells.set(idx, next);
        proof {
            assert(self@ =~= toggled(
                old(self)@,
                cell_index(old(self).spec_width(), row as nat, column as nat) as int,
            ));
        }
        Ok(())
    }

    /// Advances the grid one generation: the whole old generation is read,
    /// a fresh buffer is written, and the new buffer replaces the old one
    /// atomically.
    pub fn tick(&mut self)
        requires
            old(self).wf(),
        ensures
            final(self).wf(),
            final(self).spec_width() == old(self).spec_width(),
            final(self).spec_height() == old(self).spec_height(),
            final(self)@ == step(old(self)@, old(self).spec_width(), old(self).spec_height()),
    {
        let ghost g0 = self@;
        let ghost w = self.spec_width();
        let ghost h = self.spec_height();
        let mut next: Vec<Cell> = Vec::new();
        let mut row: u32 = 0;
        while row < self.height
            invariant
                self == old(self),
                self.wf(),
                g0 == self@,
                w == self.spec_width(),
                h == self.spec_height(),
                row as nat <= h,
                next@.len() == row as nat * w,
                forall|i: int|
                    0 <= i < next@.len() ==> cell_alive(next@[i]) == step(g0, w, h)[i],
            decreases self.height - row,
        {
            let mut col: u32 = 0;
            while col < self.width
                invariant
                    self == old(self),
                    self.wf(),
                    g0 == self@,
                    w == self.spec_width(),
                    h == self.spec_height(),
                    (row as nat) < h,
                    col as nat <= w,
                    next@.len() == row as nat * w + col as nat,
                    forall|i: int|
                        0 <= i < next@.len() ==> cell_alive(next@[i]) == step(g0, w, h)[i],
                decreases self.width - col,
            {
                let idx = self.get_index(row, col);
                let alive = cell_is_alive(self.cells[idx]);
                let neighbors = self.live_neighbor_count(row, col);
                let next_cell = if alive {
                    if neighbors == 2 || neighbors == 3 {
                        Cell::Alive
                    } else {
                        Cell::Dead
                    }
                } else {
                    if neighbors == 3 {
                        Cell::Alive
                    } else {
                        Cell::Dead
                    }
                };
                proof {
                    lemma_cell_index_bounds(w, h, row as nat, col as nat);
                    lemma_cell_index_div_mod(w, row as nat, col as nat);
                    assert(cell_alive(next_cell) == step(g0, w, h)[idx as int]);
                }
                next.push(next_cell);
                col = col + 1;
            }
            proof {
                assert((row as nat + 1) * w == row as nat * w + w) by (nonlinear_arith);
            }
            row = row + 1;
        }
        let ghost nseq = next@;
        self.cells = next;
        proof {
            assert(self@.len() == nseq.len());
            assert(h * w == w * h) by (nonlinear_arith);
            assert(self@.len() == step(g0, w, h).len());
            assert forall|i: int| 0 <= i < self@.len() implies self@[i] == step(g0, w, h)[i] by {
                assert(cell_alive(nseq[i]) == step(g0, w, h)[i]);
            }
            assert(self@ =~= step(g0, w, h));
        }
    }

    /// The row-major text rendering: one glyph per cell, a line break
    /// after each row.
    pub fn render(&self) -> (r: String)
        requires
            self.wf(),
        ensures
            r@ == render_grid(self@, self.spec_width(), self.spec_height()),
    {
        let ghost g = self@;
        let ghost w = self.spec_width();
        let ghost h = self.spec_height();
        proof {
            reveal_strlit("◼");
            reveal_strlit("◻");
            reveal_strlit("\n");
        }
        let mut s = String::new();
        let mut row: u32 = 0;
        while row < self.height
            invariant
                self.wf(),
                g == self@,
                w == self.spec_width(),
                h == self.spec_height(),
                row as nat <= h,
                s@ == render_grid(g, w, row as nat),
                "◼"@ == seq!['◼'],
                "◻"@ == seq!['◻'],
                "\n"@ == seq!['\n'],
            decreases self.height - row,
        {
            let mut col: u32 = 0;
            while col < self.width
                invariant
                    self.wf(),
                    g == self@,
                    w == self.spec_width(),
                    h == self.spec_height(),
                    (row as nat) < h,
                    col as nat <= w,
                    s@ == render_grid(g, w, row as nat) + render_row(g, w, row as nat).take(
                        col as int,
                    ),
                    "◼"@ == seq!['◼'],
                    "◻"@ == seq!['◻'],
                    "\n"@ == seq!['\n'],
                decreases self.width - col,
            {
                let idx = self.get_index(row, col);
                let ghost s_before = s@;
                if cell_is_alive(self.cells[idx]) {
                    s.append("◼");
                } else {
                    s.append("◻");
                }
                proof {
                    assert(s@ =~= render_grid(g, w, row as nat) + render_row(g, w, row as nat).take(
                        col as int + 1,
                    ));
                }
                col = col + 1;
            }
            s.append("\n");
            proof {
                assert(render_row(g, w, row as nat).take(w as int) =~= render_row(g, w, row as nat));
                assert(s@ =~= render_grid(g, w, row as nat + 1));
            }
            row = row + 1;
        }
        s
    }
}

/// A buffer of `size` dead cells, used by the resizing operations.
fn dead_cells(size: usize) -> (r: Vec<Cell>)
    ensures
        r@.len() == size as nat,
        forall|i: int| 0 <= i < r@.len() ==> !cell_alive(r@[i]),
{
    let mut cells: Vec<Cell> = Vec::new();
    let mut i: usize = 0;
    while i < size
        invariant
            i <= size,
            cells@.len() == i as nat,
            forall|j: int| 0 <= j < i as int ==> !cell_alive(cells@[j]),
        decreases size - i,
    {
        cells.push(Cell::Dead);
        i = i + 1;
    }
    cells
}

} // verus!
