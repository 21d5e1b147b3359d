//! What holds of every board: facts about one generation, proved from the
//! model that the board's contracts are stated over.

use vstd::prelude::*;
use crate::grid::Grid;
use crate::rule::Variant;
use crate::torus::{lemma_wrap_back, lemma_wrap_compose, lemma_wrap_unit, wrap};

verus! {

/// No spontaneous birth: on a board where every cell is dead, every cell is
/// dead one generation later, under either variant.
pub proof fn law_dead_board_stays_dead(g: Grid)
    requires
        g.wf(),
        g.all_dead(),
    ensures
        g.step().all_dead(),
        g.step() == g,
{
    assert forall|i: int| 0 <= i < g.step().cells.len() implies !g.step().cells[i] by {
        let x = i % (g.width as int);
        let y = i / (g.width as int);
        lemma_no_live_neighbors_on_dead_board(g, x, y);
    }
    assert(g.step().cells =~= g.cells);
}

/// On a board where every cell is dead, no cell has a live neighbour.
proof fn lemma_no_live_neighbors_on_dead_board(g: Grid, x: int, y: int)
    requires
        g.wf(),
        g.all_dead(),
    ensures
        g.live_neighbors(x, y) == 0,
{
    assert forall|dx: int, dy: int| !g.neighbor(x, y, dx, dy) by {
        g.lemma_index_in_range(wrap(x, dx, g.width as int), wrap(y, dy, g.height as int));
    }
}

/// Loneliness: a cell whose eight neighbours are all dead is dead one
/// generation later, whatever its own state and the variant. So is a cell
/// with a single live neighbour.
pub proof fn law_isolated_cell_dies(g: Grid, x: int, y: int)
    requires
        g.wf(),
        g.in_bounds(x, y),
        g.live_neighbors(x, y) < 2,
    ensures
        !g.step().cell(x, y),
{
    g.lemma_step();
}

/// Reproduction: a cell with exactly three live neighbours is alive one
/// generation later, whatever its own state and the variant.
pub proof fn law_three_neighbors_give_life(g: Grid, x: int, y: int)
    requires
        g.wf(),
        g.in_bounds(x, y),
        g.live_neighbors(x, y) == 3,
    ensures
        g.step().cell(x, y),
{
    g.lemma_step();
}

/// The two variants differ on dead cells with exactly seven live neighbours
/// and nowhere else: such a cell is alive one generation later under
/// drylife and dead under the standard rule, all else equal.
pub proof fn law_drylife_birth_on_seven(g: Grid, x: int, y: int)
    requires
        g.wf(),
        g.in_bounds(x, y),
    ensures
        !g.cell(x, y) && g.live_neighbors(x, y) == 7 ==> {
            &&& g.with_variant(Variant::Drylife).step().cell(x, y)
            &&& !g.with_variant(Variant::Standard).step().cell(x, y)
        },
        g.cell(x, y) || g.live_neighbors(x, y) != 7 ==> {
            g.with_variant(Variant::Drylife).step().cell(x, y) == g.with_variant(
                Variant::Standard,
            ).step().cell(x, y)
        },
{
    g.with_variant(Variant::Drylife).lemma_step();
    g.with_variant(Variant::Standard).lemma_step();
}

/// Wraparound: the cell at `(0, y)` in the first column is a neighbour of
/// the three cells next to it in the last column, `(width - 1, y + dy)` for
/// `dy` in -1, 0, 1 with the row taken modulo the height. If it is alive,
/// each of them has at least one live neighbour.
pub proof fn law_first_column_neighbors_last(g: Grid, y: int, dy: int)
    requires
        g.wf(),
        0 <= y < g.height,
        -1 <= dy <= 1,
    ensures
        g.neighbor(g.width - 1, wrap(y, dy, g.height as int), 1, -dy) == g.cell(0, y),
        g.cell(0, y) ==> g.live_neighbors(g.width - 1, wrap(y, dy, g.height as int)) >= 1,
{
    lemma_wrap_unit(g.width - 1, g.width as int);
    lemma_wrap_back(y, dy, g.height as int);
}

/// The neighbour of a moved cell on a shifted board is the neighbour of the
/// cell on the board.
proof fn lemma_shifted_neighbor(g: Grid, sx: int, sy: int, x: int, y: int, dx: int, dy: int)
    requires
        g.wf(),
        g.in_bounds(x, y),
    ensures
        g.shifted(sx, sy).neighbor(
            wrap(x, sx, g.width as int),
            wrap(y, sy, g.height as int),
            dx,
            dy,
        ) == g.neighbor(x, y, dx, dy),
{
    let w = g.width as int;
    let h = g.height as int;
    g.lemma_shifted(sx, sy);
    // Moving by sx, then by dx, then back by sx is moving by dx.
    lemma_wrap_compose(x, sx, dx, w);
    lemma_wrap_compose(x, sx + dx, -sx, w);
    lemma_wrap_compose(y, sy, dy, h);
    lemma_wrap_compose(y, sy + dy, -sy, h);
}

/// The torus has no edge: moving every cell by the same `(sx, sy)` around
/// the board moves the neighbour counts with the cells. A cell at an edge
/// or a corner has the count that it has in the interior of the shifted
/// board.
pub proof fn law_shift_keeps_neighbor_counts(g: Grid, sx: int, sy: int, x: int, y: int)
    requires
        g.wf(),
        g.in_bounds(x, y),
    ensures
        g.shifted(sx, sy).live_neighbors(wrap(x, sx, g.width as int), wrap(y, sy, g.height as int))
            == g.live_neighbors(x, y),
{
    lemma_shifted_neighbor(g, sx, sy, x, y, -1, -1);
    lemma_shifted_neighbor(g, sx, sy, x, y, -1, 0);
    lemma_shifted_neighbor(g, sx, sy, x, y, -1, 1);
    lemma_shifted_neighbor(g, sx, sy, x, y, 0, -1);
    lemma_shifted_neighbor(g, sx, sy, x, y, 0, 1);
    lemma_shifted_neighbor(g, sx, sy, x, y, 1, -1);
    lemma_shifted_neighbor(g, sx, sy, x, y, 1, 0);
    lemma_shifted_neighbor(g, sx, sy, x, y, 1, 1);
}

/// A generation commutes with a shift: shifting the board and then
/// advancing it gives the same board as advancing it and then shifting.
pub proof fn law_step_commutes_with_shift(g: Grid, sx: int, sy: int)
    requires
        g.wf(),
    ensures
        g.shifted(sx, sy).step() == g.step().shifted(sx, sy),
{
    let w = g.width as int;
    let h = g.height as int;
    let moved = g.shifted(sx, sy);
    g.lemma_step();
    assert forall|i: int| 0 <= i < g.cells.len() implies moved.step().cells[i] == g.step().shifted(
        sx,
        sy,
    ).cells[i] by {
        let x = i % w;
        let y = i / w;
        g.lemma_coords_of_index(i);
        let x0 = wrap(x, -sx, w);
        let y0 = wrap(y, -sy, h);
        lemma_wrap_compose(x, -sx, sx, w);
        lemma_wrap_compose(y, -sy, sy, h);
        lemma_wrap_unit(x, w);
        lemma_wrap_unit(y, h);
        law_shift_keeps_neighbor_counts(g, sx, sy, x0, y0);
    }
    assert(moved.step().cells =~= g.step().shifted(sx, sy).cells);
}

/// `(x, y)` lies in the two-by-two block whose top-left cell is `(bx, by)`.
/// A block that starts in the last column or row goes on in the first.
pub open spec fn in_block(g: Grid, bx: int, by: int, x: int, y: int) -> bool {
    &&& x == bx || x == wrap(bx, 1, g.width as int)
    &&& y == by || y == wrap(by, 1, g.height as int)
}

/// The live cells of `g` are exactly those of the two-by-two block whose
/// top-left cell is `(bx, by)`.
pub open spec fn is_block(g: Grid, bx: int, by: int) -> bool {
    forall|x: int, y: int|
        g.in_bounds(x, y) ==> #[trigger] g.cell(x, y) == in_block(g, bx, by, x, y)
}

/// On a board that holds a two-by-two block and nothing else, each cell has
/// the same state one generation later.
proof fn lemma_block_cell_keeps_state(g: Grid, bx: int, by: int, x: int, y: int)
    requires
        g.wf(),
        g.width >= 3,
        g.height >= 3,
        g.in_bounds(bx, by),
        is_block(g, bx, by),
        g.in_bounds(x, y),
    ensures
        g.next_cell(x, y) == g.cell(x, y),
        g.cell(x, y) ==> g.live_neighbors(x, y) == 3,
{
    lemma_wrap_unit(x, g.width as int);
    lemma_wrap_unit(y, g.height as int);
    lemma_wrap_unit(bx, g.width as int);
    lemma_wrap_unit(by, g.height as int);
}

/// A two-by-two block is a still life: on a board of at least three columns
/// and three rows whose live cells are exactly those of one block, every
/// block cell has exactly three live neighbours, and one generation later
/// the board is the same, under either variant.
pub proof fn law_block_is_still_life(g: Grid, bx: int, by: int)
    requires
        g.wf(),
        g.width >= 3,
        g.height >= 3,
        g.in_bounds(bx, by),
        is_block(g, bx, by),
    ensures
        g.step() == g,
        forall|x: int, y: int|
            g.in_bounds(x, y) && in_block(g, bx, by, x, y) ==> #[trigger] g.live_neighbors(x, y)
                == 3,
{
    assert forall|i: int| 0 <= i < g.cells.len() implies g.step().cells[i] == g.cells[i] by {
        g.lemma_coords_of_index(i);
        lemma_block_cell_keeps_state(g, bx, by, i % (g.width as int), i / (g.width as int));
    }
    assert(g.step().cells =~= g.cells);
    assert forall|x: int, y: int|
        g.in_bounds(x, y) && in_block(g, bx, by, x, y) implies #[trigger] g.live_neighbors(x, y)
        == 3 by {
        lemma_block_cell_keeps_state(g, bx, by, x, y);
    }
}

/// A block stays: after any number of generations the board of
/// [`law_block_is_still_life`] is the same, so the block cells are alive and
/// all other cells dead.
pub proof fn law_block_stays(g: Grid, bx: int, by: int, n: nat)
    requires
        g.wf(),
        g.width >= 3,
        g.height >= 3,
        g.in_bounds(bx, by),
        is_block(g, bx, by),
    ensures
        g.steps(n) == g,
    decreases n,
{
    if n > 0 {
        law_block_is_still_life(g, bx, by);
        law_block_stays(g, bx, by, (n - 1) as nat);
    }
}

} // verus!
