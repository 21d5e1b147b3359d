//! The mathematical model of a board: a torus of cells and what one
//! generation does to it.

use vstd::prelude::*;
use vstd::arithmetic::div_mod::{lemma_fundamental_div_mod, lemma_fundamental_div_mod_converse};
use crate::rule::{rule, Variant};
use crate::torus::wrap;

verus! {

/// A board as a mathematical value: its dimensions, its variant and its
/// cells in row-major order, `true` for a live cell.
pub struct Grid {
    pub width: nat,
    pub height: nat,
    pub variant: Variant,
    pub cells: Seq<bool>,
}

impl Grid {
    /// Both dimensions are positive and there is one cell per coordinate.
    pub open spec fn wf(self) -> bool {
        &&& self.width > 0
        &&& self.height > 0
        &&& self.cells.len() == self.width * self.height
    }

    /// The board of the given dimensions and variant on which every cell is dead.
    pub open spec fn dead(width: nat, height: nat, variant: Variant) -> Grid {
        Grid { width, height, variant, cells: Seq::new(width * height, |i: int| false) }
    }

    /// `(x, y)` is a coordinate of the board.
    pub open spec fn in_bounds(self, x: int, y: int) -> bool {
        0 <= x < self.width && 0 <= y < self.height
    }

    /// The place of `(x, y)` in the row-major cell sequence.
    pub open spec fn index_of(self, x: int, y: int) -> int {
        y * self.width + x
    }

    /// The state of the cell at `(x, y)`.
    pub open spec fn cell(self, x: int, y: int) -> bool {
        self.cells[self.index_of(x, y)]
    }

    /// No cell is alive.
    pub open spec fn all_dead(self) -> bool {
        forall|i: int| 0 <= i < self.cells.len() ==> !self.cells[i]
    }

    /// The state of the cell at offset `(dx, dy)` from `(x, y)`, each
    /// coordinate wrapped on its own axis.
    pub open spec fn neighbor(self, x: int, y: int, dx: int, dy: int) -> bool {
        self.cell(wrap(x, dx, self.width as int), wrap(y, dy, self.height as int))
    }

    /// One if the neighbour at offset `(dx, dy)` is alive, zero if not.
    pub open spec fn live_at(self, x: int, y: int, dx: int, dy: int) -> nat {
        if self.neighbor(x, y, dx, dy) {
            1
        } else {
            0
        }
    }

    /// How many of the eight neighbours of `(x, y)` are alive. A cell that
    /// is reached through several offsets, as happens on an axis shorter
    /// than three, counts once for each.
    pub open spec fn live_neighbors(self, x: int, y: int) -> nat {
        self.live_at(x, y, -1, -1) + self.live_at(x, y, -1, 0) + self.live_at(x, y, -1, 1)
            + self.live_at(x, y, 0, -1) + self.live_at(x, y, 0, 1)
            + self.live_at(x, y, 1, -1) + self.live_at(x, y, 1, 0) + self.live_at(x, y, 1, 1)
    }

    /// The state of the cell at `(x, y)` one generation later.
    pub open spec fn next_cell(self, x: int, y: int) -> bool {
        rule(self.cell(x, y), self.live_neighbors(x, y) as int, self.variant)
    }

    /// The board one generation later: every cell is replaced at once by its
    /// next state, each computed from this board alone.
    pub open spec fn step(self) -> Grid {
        Grid {
            cells: Seq::new(
                self.cells.len(),
                |i: int| self.next_cell(i % (self.width as int), i / (self.width as int)),
            ),
            ..self
        }
    }

    /// The board `n` generations later.
    pub open spec fn steps(self, n: nat) -> Grid
        decreases n,
    {
        if n == 0 {
            self
        } else {
            self.step().steps((n - 1) as nat)
        }
    }

    /// The board with the cell at `(x, y)` set to `value` and every other
    /// cell as it is.
    pub open spec fn with_cell(self, x: int, y: int, value: bool) -> Grid {
        Grid { cells: self.cells.update(self.index_of(x, y), value), ..self }
    }

    /// The board with its cell sequence replaced by `cells`.
    pub open spec fn with_cells(self, cells: Seq<bool>) -> Grid {
        Grid { cells, ..self }
    }

    /// The board with every cell moved `sx` columns and `sy` rows around the
    /// torus: what is at `(x, y)` here is at `(x + sx, y + sy)` there, each
    /// coordinate wrapped on its own axis.
    pub open spec fn shifted(self, sx: int, sy: int) -> Grid {
        Grid {
            cells: Seq::new(
                self.cells.len(),
                |i: int|
                    self.cell(
                        wrap(i % (self.width as int), -sx, self.width as int),
                        wrap(i / (self.width as int), -sy, self.height as int),
                    ),
            ),
            ..self
        }
    }

    /// The board with its variant replaced by `variant`.
    pub open spec fn with_variant(self, variant: Variant) -> Grid {
        Grid { variant, ..self }
    }

    /// A coordinate of the board has a place in the cell sequence.
    pub proof fn lemma_index_in_range(self, x: int, y: int)
        requires
            self.wf(),
            self.in_bounds(x, y),
        ensures
            0 <= self.index_of(x, y) < self.cells.len(),
    {
        let w = self.width as int;
        let h = self.height as int;
        assert(0 <= y * w && y * w + w <= h * w) by (nonlinear_arith)
            requires
                0 <= y < h,
                0 < w,
        ;
    }

    /// The place of a coordinate determines the coordinate.
    pub proof fn lemma_index_coords(self, x: int, y: int)
        requires
            self.wf(),
            self.in_bounds(x, y),
        ensures
            self.index_of(x, y) % (self.width as int) == x,
            self.index_of(x, y) / (self.width as int) == y,
    {
        lemma_fundamental_div_mod_converse(self.index_of(x, y), self.width as int, y, x);
    }

    /// Every place in the cell sequence belongs to a coordinate of the board.
    pub proof fn lemma_coords_of_index(self, i: int)
        requires
            self.wf(),
            0 <= i < self.cells.len(),
        ensures
            self.in_bounds(i % (self.width as int), i / (self.width as int)),
            self.index_of(i % (self.width as int), i / (self.width as int)) == i,
    {
        let w = self.width as int;
        let h = self.height as int;
        lemma_fundamental_div_mod(i, w);
        let q = i / w;
        assert(0 <= q < h) by (nonlinear_arith)
            requires
                0 <= i < h * w,
                0 < w,
                i == q * w + i % w,
                0 <= i % w < w,
        ;
    }

    /// A generation keeps the dimensions and the variant, and sets each cell
    /// to its next state.
    pub proof fn lemma_step(self)
        requires
            self.wf(),
        ensures
            self.step().wf(),
            self.step().width == self.width,
            self.step().height == self.height,
            self.step().variant == self.variant,
            forall|x: int, y: int|
                self.in_bounds(x, y) ==> #[trigger] self.step().cell(x, y) == self.next_cell(x, y),
    {
        assert forall|x: int, y: int| self.in_bounds(x, y) implies #[trigger] self.step().cell(
            x,
            y,
        ) == self.next_cell(x, y) by {
            self.lemma_index_in_range(x, y);
            self.lemma_index_coords(x, y);
        }
    }

    /// A shifted board has the same dimensions and variant, and at each
    /// coordinate the cell that was `(sx, sy)` before it.
    pub proof fn lemma_shifted(self, sx: int, sy: int)
        requires
            self.wf(),
        ensures
            self.shifted(sx, sy).wf(),
            self.shifted(sx, sy).width == self.width,
            self.shifted(sx, sy).height == self.height,
            self.shifted(sx, sy).variant == self.variant,
            forall|x: int, y: int|
                self.in_bounds(x, y) ==> #[trigger] self.shifted(sx, sy).cell(x, y) == self.cell(
                    wrap(x, -sx, self.width as int),
                    wrap(y, -sy, self.height as int),
                ),
    {
        assert forall|x: int, y: int| self.in_bounds(x, y) implies #[trigger] self.shifted(
            sx,
            sy,
        ).cell(x, y) == self.cell(
            wrap(x, -sx, self.width as int),
            wrap(y, -sy, self.height as int),
        ) by {
            self.lemma_index_in_range(x, y);
            self.lemma_index_coords(x, y);
        }
    }
}

} // verus!
