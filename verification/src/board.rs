//! The executable board.

use vstd::prelude::*;
use crate::grid::Grid;
use crate::random::fill_random;
use crate::rule::{next_state, Variant};
use crate::torus::wrap_around;

verus! {

/// Offset `(dx, dy)` is visited before offset `(ex, ey)`: neighbours are
/// visited column by column, each column from top to bottom.
spec fn visited_before(dx: int, dy: int, ex: int, ey: int) -> bool {
    dx < ex || (dx == ex && dy < ey)
}

/// The neighbour at `(dx, dy)` if it is alive and visited before `(ex, ey)`.
spec fn live_if_visited(g: Grid, x: int, y: int, dx: int, dy: int, ex: int, ey: int) -> nat {
    if visited_before(dx, dy, ex, ey) {
        g.live_at(x, y, dx, dy)
    } else {
        0
    }
}

/// How many of the neighbours of `(x, y)` that are visited before offset
/// `(ex, ey)` are alive.
spec fn live_before(g: Grid, x: int, y: int, ex: int, ey: int) -> nat {
    live_if_visited(g, x, y, -1, -1, ex, ey) + live_if_visited(g, x, y, -1, 0, ex, ey)
        + live_if_visited(g, x, y, -1, 1, ex, ey) + live_if_visited(g, x, y, 0, -1, ex, ey)
        + live_if_visited(g, x, y, 0, 1, ex, ey) + live_if_visited(g, x, y, 1, -1, ex, ey)
        + live_if_visited(g, x, y, 1, 0, ex, ey) + live_if_visited(g, x, y, 1, 1, ex, ey)
}

/// A fixed-size toroidal grid of cells, each dead or alive, together with
/// the variant of the rule that advances it.
pub struct ConwayBoard {
    width: usize,
    height: usize,
    variant: Variant,
    cells: Vec<bool>,
}

impl View for ConwayBoard {
    type V = Grid;

    closed spec fn view(&self) -> Grid {
        Grid {
            width: self.width as nat,
            height: self.height as nat,
            variant: self.variant,
            cells: self.cells@,
        }
    }
}

impl ConwayBoard {
    /// The board is valid: its model is. Every constructor establishes this
    /// and every method keeps it.
    pub open spec fn wf(&self) -> bool {
        self@.wf()
    }

    /// A board of the given dimensions and variant with every cell dead.
    pub fn with_variant(width: usize, height: usize, variant: Variant) -> (board: ConwayBoard)
        requires
            width > 0,
            height > 0,
            width * height <= usize::MAX,
        ensures
            board.wf(),
            board@ == Grid::dead(width as nat, height as nat, variant),
    {
        let cells = vec![false; width * height];
        let board = ConwayBoard { width, height, variant, cells };
        assert(board@.cells =~= Grid::dead(width as nat, height as nat, variant).cells);
        board
    }

    /// A board under the standard rule with every cell dead.
    pub fn new(width: usize, height: usize) -> (board: ConwayBoard)
        requires
            width > 0,
            height > 0,
            width * height <= usize::MAX,
        ensures
            board.wf(),
            board@ == Grid::dead(width as nat, height as nat, Variant::Standard),
    {
        ConwayBoard::with_variant(width, height, Variant::Standard)
    }

    /// A board under the drylife rule with every cell dead.
    pub fn new_drylife(width: usize, height: usize) -> (board: ConwayBoard)
        requires
            width > 0,
            height > 0,
            width * height <= usize::MAX,
        ensures
            board.wf(),
            board@ == Grid::dead(width as nat, height as nat, Variant::Drylife),
    {
        ConwayBoard::with_variant(width, height, Variant::Drylife)
    }

    /// The number of columns.
    pub fn width(&self) -> (width: usize)
        ensures
            width == self@.width,
    {
        self.width
    }

    /// The number of rows.
    pub fn height(&self) -> (height: usize)
        ensures
            height == self@.height,
    {
        self.height
    }

    /// The variant of the rule that `simulate` applies.
    pub fn variant(&self) -> (variant: Variant)
        ensures
            variant == self@.variant,
    {
        self.variant
    }

    /// The place of `(x, y)` in the cell vector.
    fn index(&self, x: usize, y: usize) -> (idx: usize)
        requires
            self.wf(),
            self@.in_bounds(x as int, y as int),
        ensures
            idx == self@.index_of(x as int, y as int),
            idx < self.cells.len(),
    {
        proof {
            let w = self.width as int;
            self@.lemma_index_in_range(x as int, y as int);
            assert(0 <= y * w) by (nonlinear_arith)
                requires
                    0 <= y,
                    0 <= w,
            ;
            // The place is below the vector's length, which fits in a usize.
            assert(self@.cells.len() == self.cells.len());
        }
        y * self.width + x
    }

    /// The state of the cell at `(x, y)`: `true` if it is alive.
    pub fn get(&self, x: usize, y: usize) -> (alive: bool)
        requires
            self.wf(),
            x < self@.width,
            y < self@.height,
        ensures
            alive == self@.cell(x as int, y as int),
    {
        let idx = self.index(x, y);
        self.cells[idx]
    }

    /// Sets the cell at `(x, y)` to `value` at once; no other cell changes.
    pub fn set(&mut self, x: usize, y: usize, value: bool)
        requires
            old(self).wf(),
            x < old(self)@.width,
            y < old(self)@.height,
        ensures
            final(self).wf(),
            final(self)@ == old(self)@.with_cell(x as int, y as int, value),
    {
        let idx = self.index(x, y);
        self.cells[idx] = value;
    }

    /// How many of the eight neighbours of `(x, y)` are alive, where the
    /// board's edges are joined to the opposite edges.
    pub fn count_live_neighbors_with_wrapround(&self, x: usize, y: usize) -> (neighboring: u32)
        requires
            self.wf(),
            x < self@.width,
            y < self@.height,
        ensures
            neighboring == self@.live_neighbors(x as int, y as int),
    {
        let mut neighboring: u32 = 0;
        let mut dx: isize = -1;
        while dx <= 1
            invariant
                self.wf(),
                x < self@.width,
                y < self@.height,
                -1 <= dx <= 2,
                neighboring == live_before(self@, x as int, y as int, dx as int, -1),
            decreases 2 - dx,
        {
            let mut dy: isize = -1;
            while dy <= 1
                invariant
                    self.wf(),
                    x < self@.width,
                    y < self@.height,
                    -1 <= dx <= 1,
                    -1 <= dy <= 2,
                    neighboring == live_before(self@, x as int, y as int, dx as int, dy as int),
                decreases 2 - dy,
            {
                if !(dx == 0 && dy == 0) {
                    let adjx = wrap_around(x, self.width, dx);
                    let adjy = wrap_around(y, self.height, dy);
                    if self.get(adjx, adjy) {
                        neighboring += 1;
                    }
                }
                dy += 1;
            }
            dx += 1;
        }
        neighboring
    }

    /// The cells of the next generation, computed from this board alone.
    fn next_generation(&self) -> (new_cells: Vec<bool>)
        requires
            self.wf(),
        ensures
            new_cells@ == self@.step().cells,
    {
        let mut new_cells = self.cells.clone();
        let mut y: usize = 0;
        while y < self.height
            invariant
                self.wf(),
                y <= self.height,
                new_cells.len() == self.cells.len(),
                forall|i: int| 0 <= i < y * self.width ==> new_cells[i] == self@.step().cells[i],
            decreases self.height - y,
        {
            let mut x: usize = 0;
            while x < self.width
                invariant
                    self.wf(),
                    y < self.height,
                    x <= self.width,
                    new_cells.len() == self.cells.len(),
                    forall|i: int|
                        0 <= i < y * self.width + x ==> new_cells[i] == self@.step().cells[i],
                decreases self.width - x,
            {
                let neighboring = self.count_live_neighbors_with_wrapround(x, y);
                let idx = self.index(x, y);
                proof {
                    self@.lemma_index_coords(x as int, y as int);
                }
                new_cells[idx] = next_state(self.cells[idx], neighboring, self.variant);
                x += 1;
            }
            proof {
                assert((y + 1) * self.width == y * self.width + self.width) by (nonlinear_arith);
            }
            y += 1;
        }
        new_cells
    }

    /// Advances the board by one generation. Every cell is replaced by its
    /// next state, and each next state is computed from the generation
    /// before the call: no cell sees a neighbour's new state.
    pub fn simulate(&mut self)
        requires
            old(self).wf(),
        ensures
            final(self).wf(),
            final(self)@ == old(self)@.step(),
    {
        let new_cells = self.next_generation();
        self.cells = new_cells;
    }

    /// Replaces the whole cell sequence by `cells`, given in row-major
    /// order, if it holds one cell per coordinate; the board is left as it
    /// is if it does not. Returns whether the cells were replaced.
    pub fn replace_cells(&mut self, cells: Vec<bool>) -> (replaced: bool)
        requires
            old(self).wf(),
        ensures
            final(self).wf(),
            replaced == (cells@.len() == old(self)@.cells.len()),
            replaced ==> final(self)@ == old(self)@.with_cells(cells@),
            !replaced ==> final(self)@ == old(self)@,
    {
        if cells.len() == self.cells.len() {
            self.cells = cells;
            true
        } else {
            false
        }
    }

    /// Replaces every cell by a boolean drawn independently from the
    /// thread-local random generator. The dimensions and the variant stay;
    /// which cells are alive afterwards is not determined.
    pub fn randomize(&mut self)
        requires
            old(self).wf(),
        ensures
            final(self).wf(),
            final(self)@.width == old(self)@.width,
            final(self)@.height == old(self)@.height,
            final(self)@.variant == old(self)@.variant,
    {
        let mut cells = vec![false; self.cells.len()];
        fill_random(&mut cells);
        self.replace_cells(cells);
    }
}

} // verus!
