//! Coordinates on a ring: the arithmetic behind the board's wraparound.

use vstd::prelude::*;
use vstd::arithmetic::div_mod::{
    lemma_add_mod_noop_right, lemma_fundamental_div_mod_converse, lemma_mod_add_multiples_vanish,
};

verus! {

/// The coordinate reached from `coord` by moving `delta` places along an axis
/// of `size` places whose two ends are joined.
pub open spec fn wrap(coord: int, delta: int, size: int) -> int {
    (coord + delta + size) % size
}

/// Moving by at most one place: the coordinate next to `coord`, with the
/// place after the last being the first and the place before the first being
/// the last.
pub proof fn lemma_wrap_unit(coord: int, size: int)
    requires
        0 <= coord < size,
    ensures
        wrap(coord, 0, size) == coord,
        wrap(coord, 1, size) == if coord == size - 1 { 0 } else { coord + 1 },
        wrap(coord, -1, size) == if coord == 0 { size - 1 } else { coord - 1 },
{
    lemma_fundamental_div_mod_converse(coord + size, size, 1, coord);
    if coord == size - 1 {
        lemma_fundamental_div_mod_converse(coord + 1 + size, size, 2, 0);
    } else {
        lemma_fundamental_div_mod_converse(coord + 1 + size, size, 1, coord + 1);
    }
    if coord == 0 {
        lemma_fundamental_div_mod_converse(coord - 1 + size, size, 0, size - 1);
    } else {
        lemma_fundamental_div_mod_converse(coord - 1 + size, size, 1, coord - 1);
    }
}

/// A step of at most one place followed by the opposite step leads back.
pub proof fn lemma_wrap_back(coord: int, delta: int, size: int)
    requires
        0 <= coord < size,
        -1 <= delta <= 1,
    ensures
        wrap(wrap(coord, delta, size), -delta, size) == coord,
{
    lemma_wrap_unit(coord, size);
    lemma_wrap_unit(wrap(coord, delta, size), size);
}

/// Two moves in a row are one move by their sum.
pub proof fn lemma_wrap_compose(coord: int, first: int, second: int, size: int)
    requires
        size > 0,
    ensures
        wrap(wrap(coord, first, size), second, size) == wrap(coord, first + second, size),
{
    let a = coord + first + size;
    // (a % size + second + size) % size == (a + second + size) % size
    lemma_add_mod_noop_right(second + size, a, size);
    // (size + (coord + first + second + size)) % size == (coord + first + second + size) % size
    lemma_mod_add_multiples_vanish(coord + first + second + size, size);
}

/// The neighbour of `coord` at offset `delta` on an axis of `max` places
/// that wraps around.
pub fn wrap_around(coord: usize, max: usize, delta: isize) -> (adj: usize)
    requires
        coord < max,
        -1 <= delta <= 1,
    ensures
        adj == wrap(coord as int, delta as int, max as int),
        adj < max,
{
    proof {
        lemma_wrap_unit(coord as int, max as int);
    }
    if delta < 0 {
        if coord == 0 {
            max - 1
        } else {
            coord - 1
        }
    } else if delta > 0 {
        if coord == max - 1 {
            0
        } else {
            coord + 1
        }
    } else {
        coord
    }
}

} // verus!
