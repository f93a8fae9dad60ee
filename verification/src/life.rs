//! The mathematical model of the game: a grid is a row-major sequence of
//! booleans, and one generation step is a pure function of that sequence.

use vstd::prelude::*;

verus! {

/// The row or column just before `i`, wrapping from 0 to `n - 1`.
pub open spec fn wrap_dec(i: nat, n: nat) -> nat
    recommends
        i < n,
{
    if i == 0 {
        (n - 1) as nat
    } else {
        (i - 1) as nat
    }
}

/// The row or column just after `i`, wrapping from `n - 1` to 0.
pub open spec fn wrap_inc(i: nat, n: nat) -> nat
    recommends
        i < n,
{
    if i == n - 1 {
        0
    } else {
        i + 1
    }
}

/// Row-major position of `(row, col)` in a grid `w` cells wide.
pub open spec fn cell_index(w: nat, row: nat, col: nat) -> int {
    row * w + col as int
}

/// The state of the cell at `(row, col)` in grid `g` of width `w`.
pub open spec fn alive_at(g: Seq<bool>, w: nat, row: nat, col: nat) -> bool {
    g[cell_index(w, row, col)]
}

/// 1 for a live cell, 0 for a dead one.
pub open spec fn count_alive(b: bool) -> int {
    if b {
        1
    } else {
        0
    }
}

/// How many of the 8 toroidal neighbors of `(row, col)` are alive in `g`.
pub open spec fn neighbor_count(g: Seq<bool>, w: nat, h: nat, row: nat, col: nat) -> int {
    let north = wrap_dec(row, h);
    let south = wrap_inc(row, h);
    let west = wrap_dec(col, w);
    let east = wrap_inc(col, w);
    count_alive(alive_at(g, w, north, west)) + count_alive(alive_at(g, w, north, col))
        + count_alive(alive_at(g, w, north, east)) + count_alive(alive_at(g, w, row, west))
        + count_alive(alive_at(g, w, row, east)) + count_alive(alive_at(g, w, south, west))
        + count_alive(alive_at(g, w, south, col)) + count_alive(alive_at(g, w, south, east))
}

/// The four rules of the game, as a function from a cell's state and its
/// live-neighbor count to its state in the next generation:
/// a live cell with fewer than two live neighbors dies (underpopulation),
/// with two or three it lives on (stasis), with more than three it dies
/// (overpopulation); a dead cell with exactly three live neighbors becomes
/// alive (reproduction); every other cell keeps its state.
pub open spec fn next_cell(alive: bool, live_neighbors: int) -> bool {
    if alive {
        if live_neighbors < 2 {
            false
        } else if live_neighbors <= 3 {
            true
        } else {
            false
        }
    } else {
        live_neighbors == 3
    }
}

/// The whole next generation of grid `g` with dimensions `w` by `h`: each
/// cell's next state, judged against `g` alone.
pub open spec fn next_gen(g: Seq<bool>, w: nat, h: nat) -> Seq<bool> {
    Seq::new(
        w * h,
        |i: int|
            next_cell(
                g[i],
                neighbor_count(g, w, h, (i / w as int) as nat, (i % w as int) as nat),
            ),
    )
}

/// Toroidal wrap law: in a grid of extent `n`, position 0 wraps backward to
/// `n - 1` and position `n - 1` wraps forward to 0, while every interior
/// position steps to its ordinary predecessor or successor. In particular,
/// for every cell in row 0 the north neighbor row is `height - 1`, and for
/// every cell in column 0 the west neighbor column is `width - 1`.
pub proof fn lemma_toroidal_wrap(n: nat)
    requires
        n > 0,
    ensures
        wrap_dec(0, n) == n - 1,
        wrap_inc((n - 1) as nat, n) == 0,
        forall|i: nat| 0 < i < n ==> wrap_dec(i, n) == i - 1,
        forall|i: nat| i + 1 < n ==> wrap_inc(i, n) == i + 1,
{
}

/// Rule law: for every cell state and every neighbor count from 0 to 8,
/// `next_cell` agrees with the four documented rules, and cells no rule
/// names keep their state.
pub proof fn lemma_rule_correctness(alive: bool, live_neighbors: int)
    requires
        0 <= live_neighbors <= 8,
    ensures
        alive && live_neighbors < 2 ==> !next_cell(alive, live_neighbors),
        alive && (live_neighbors == 2 || live_neighbors == 3) ==> next_cell(alive, live_neighbors),
        alive && live_neighbors > 3 ==> !next_cell(alive, live_neighbors),
        !alive && live_neighbors == 3 ==> next_cell(alive, live_neighbors),
        !alive && live_neighbors != 3 ==> next_cell(alive, live_neighbors) == alive,
{
}

/// A live-neighbor count is always between 0 and 8.
pub proof fn lemma_neighbor_count_range(g: Seq<bool>, w: nat, h: nat, row: nat, col: nat)
    ensures
        0 <= neighbor_count(g, w, h, row, col) <= 8,
{
}

} // verus!
