//! Counting tiles of a colour.
use vstd::prelude::*;

use crate::face::Colour;

verus! {

/// How many of the first `n` tiles of `line` have colour `col`.
pub open spec fn line_count(line: Seq<Colour>, col: Colour, n: int) -> nat
    decreases n,
{
    if n <= 0 {
        0
    } else {
        line_count(line, col, n - 1) + if line[n - 1] == col { 1nat } else { 0nat }
    }
}

/// How many tiles of colour `col` lie in the first `m` rows of `grid`, each row
/// `n` tiles long.
pub open spec fn grid_count(grid: Seq<Seq<Colour>>, col: Colour, m: int, n: int) -> nat
    decreases m,
{
    if m <= 0 {
        0
    } else {
        grid_count(grid, col, m - 1, n) + line_count(grid[m - 1], col, n)
    }
}

/// The number of a colour, in the order White, Red, Green, Blue, Orange, Yellow.
pub open spec fn colour_index(col: Colour) -> int {
    match col {
        Colour::White => 0,
        Colour::Red => 1,
        Colour::Green => 2,
        Colour::Blue => 3,
        Colour::Orange => 4,
        Colour::Yellow => 5,
    }
}

/// The colour with the given number.
pub open spec fn colour_of(j: int) -> Colour {
    if j == 0 {
        Colour::White
    } else if j == 1 {
        Colour::Red
    } else if j == 2 {
        Colour::Green
    } else if j == 3 {
        Colour::Blue
    } else if j == 4 {
        Colour::Orange
    } else {
        Colour::Yellow
    }
}

/// Returns the number of a colour.
pub fn colour_number(col: Colour) -> (j: usize)
    ensures
        j == colour_index(col),
        colour_of(j as int) == col,
{
    match col {
        Colour::White => 0,
        Colour::Red => 1,
        Colour::Green => 2,
        Colour::Blue => 3,
        Colour::Orange => 4,
        Colour::Yellow => 5,
    }
}

/// The largest of the counts of the colours numbered below `j` on an
/// `n` by `n` grid (0 when there are none).
pub open spec fn max_colour_count(grid: Seq<Seq<Colour>>, n: int, j: int) -> nat
    decreases j,
{
    if j <= 0 {
        0
    } else {
        let rest = max_colour_count(grid, n, j - 1);
        let here = grid_count(grid, colour_of(j - 1), n, n);
        if here > rest { here } else { rest }
    }
}

/// A count of `n` tiles never exceeds `n`.
pub proof fn lemma_line_count_bound(line: Seq<Colour>, col: Colour, n: int)
    requires
        n >= 0,
    ensures
        line_count(line, col, n) <= n,
    decreases n,
{
    if n > 0 {
        lemma_line_count_bound(line, col, n - 1);
    }
}

/// A count over `m` rows of `n` tiles never exceeds `m * n`.
pub proof fn lemma_grid_count_bound(grid: Seq<Seq<Colour>>, col: Colour, m: int, n: int)
    requires
        m >= 0,
        n >= 0,
    ensures
        grid_count(grid, col, m, n) <= m * n,
    decreases m,
{
    if m > 0 {
        lemma_grid_count_bound(grid, col, m - 1, n);
        lemma_line_count_bound(grid[m - 1], col, n);
        assert((m - 1) * n + n == m * n) by (nonlinear_arith);
    }
}

/// The largest colour count of an `n` by `n` grid is at most `n * n`.
pub proof fn lemma_max_colour_count_bound(grid: Seq<Seq<Colour>>, n: int, j: int)
    requires
        n >= 0,
    ensures
        max_colour_count(grid, n, j) <= n * n,
    decreases j,
{
    if j > 0 {
        lemma_max_colour_count_bound(grid, n, j - 1);
        lemma_grid_count_bound(grid, colour_of(j - 1), n, n);
    }
}

} // verus!
