//! Every turn moves tiles without making or losing any: the number of tiles of
//! each colour stays the same. A cube with as many tiles of each colour as a
//! face has is "balanced"; the solved cube is, and turns keep it so.
use vstd::prelude::*;

use crate::face::{face_index, rot_src, Colour, EdgeRef, FaceType};
use crate::model::{
    along, edge_point, lemma_edge_point_slot, lemma_edges_shape, on_edge,
    shift, slot_after, slot_of, turn_view, valid_pos, view_solved, wf_view,
};
use crate::sums::{
    lemma_sum_add, lemma_sum_ext, lemma_sum_reverse, lemma_sum_sub, lemma_sum_swap, sum,
};
use crate::turn::{Turn, TurnType};

verus! {

/// 1 when `b` holds, else 0.
pub open spec fn ind(b: bool) -> int {
    if b { 1 } else { 0 }
}

/// The number of tiles of colour `col` among the first `n` of row `r` of `g`.
pub open spec fn row_total(g: Seq<Seq<Colour>>, col: Colour, r: int, n: int) -> int
    decreases n,
{
    if n <= 0 {
        0
    } else {
        row_total(g, col, r, n - 1) + ind(g[r][n - 1] == col)
    }
}

/// The number of tiles of colour `col` among the first `m` of column `c` of `g`.
pub open spec fn col_total(g: Seq<Seq<Colour>>, col: Colour, c: int, m: int) -> int
    decreases m,
{
    if m <= 0 {
        0
    } else {
        col_total(g, col, c, m - 1) + ind(g[m - 1][c] == col)
    }
}

/// The number of tiles of colour `col` in the first `m` rows of `g`, each
/// counted over its first `n` tiles.
pub open spec fn rows_total(g: Seq<Seq<Colour>>, col: Colour, m: int, n: int) -> int
    decreases m,
{
    if m <= 0 {
        0
    } else {
        rows_total(g, col, m - 1, n) + row_total(g, col, m - 1, n)
    }
}

/// The number of tiles of colour `col` in the first `n` columns of `g`, each
/// counted over its first `m` tiles.
pub open spec fn cols_total(g: Seq<Seq<Colour>>, col: Colour, n: int, m: int) -> int
    decreases n,
{
    if n <= 0 {
        0
    } else {
        cols_total(g, col, n - 1, m) + col_total(g, col, n - 1, m)
    }
}

/// The number of tiles of colour `col` in an `n` by `n` grid.
pub open spec fn grid_total(g: Seq<Seq<Colour>>, col: Colour, n: int) -> int {
    rows_total(g, col, n, n)
}

/// The number of tiles of colour `col` on the first `m` faces of `v`.
pub open spec fn faces_total<const SIZE: usize>(v: Seq<Seq<Seq<Colour>>>, col: Colour, m: int) -> int
    decreases m,
{
    if m <= 0 {
        0
    } else {
        faces_total::<SIZE>(v, col, m - 1) + grid_total(v[m - 1], col, SIZE as int)
    }
}

/// The number of tiles of colour `col` on the cube `v`.
pub open spec fn cube_total<const SIZE: usize>(v: Seq<Seq<Seq<Colour>>>, col: Colour) -> int {
    faces_total::<SIZE>(v, col, 6)
}

/// Every colour covers as many tiles as one face has.
pub open spec fn balanced<const SIZE: usize>(v: Seq<Seq<Seq<Colour>>>) -> bool {
    forall|col: Colour| #[trigger] cube_total::<SIZE>(v, col) == SIZE * SIZE
}

/// The grid `g` rotated as a turn of type `tt` rotates a face.
pub open spec fn rotated_grid(g: Seq<Seq<Colour>>, n: int, tt: TurnType) -> Seq<Seq<Colour>> {
    Seq::new(n as nat, |r: int| Seq::new(n as nat, |c: int| g[rot_src(n, tt, r, c).0][rot_src(n, tt, r, c).1]))
}

/// A row count is the sum of the row's indicators.
proof fn lemma_row_as_sum(g: Seq<Seq<Colour>>, col: Colour, r: int, n: int, f: spec_fn(int) -> int)
    requires
        forall|c: int| 0 <= c < n ==> #[trigger] f(c) == ind(g[r][c] == col),
    ensures
        row_total(g, col, r, n) == sum(f, n),
    decreases n,
{
    if n > 0 {
        lemma_row_as_sum(g, col, r, n - 1, f);
    }
}

/// A column count is the sum of the column's indicators.
proof fn lemma_col_as_sum(g: Seq<Seq<Colour>>, col: Colour, c: int, m: int, f: spec_fn(int) -> int)
    requires
        forall|r: int| 0 <= r < m ==> #[trigger] f(r) == ind(g[r][c] == col),
    ensures
        col_total(g, col, c, m) == sum(f, m),
    decreases m,
{
    if m > 0 {
        lemma_col_as_sum(g, col, c, m - 1, f);
    }
}

/// A grid count is the sum of its row counts.
proof fn lemma_rows_as_sum(g: Seq<Seq<Colour>>, col: Colour, m: int, n: int, f: spec_fn(int) -> int)
    requires
        forall|r: int| 0 <= r < m ==> #[trigger] f(r) == row_total(g, col, r, n),
    ensures
        rows_total(g, col, m, n) == sum(f, m),
    decreases m,
{
    if m > 0 {
        lemma_rows_as_sum(g, col, m - 1, n, f);
    }
}

/// A grid count is the sum of its column counts.
proof fn lemma_cols_as_sum(g: Seq<Seq<Colour>>, col: Colour, n: int, m: int, f: spec_fn(int) -> int)
    requires
        forall|c: int| 0 <= c < n ==> #[trigger] f(c) == col_total(g, col, c, m),
    ensures
        cols_total(g, col, n, m) == sum(f, n),
    decreases n,
{
    if n > 0 {
        lemma_cols_as_sum(g, col, n - 1, m, f);
    }
}

/// Counting the columns of a grid counts the same tiles as counting its rows.
proof fn lemma_total_by_columns(g: Seq<Seq<Colour>>, col: Colour, n: int)
    requires
        n >= 0,
    ensures
        cols_total(g, col, n, n) == grid_total(g, col, n),
{
    let h = |r: int, c: int| ind(g[r][c] == col);
    lemma_sum_swap(h, n, n);
    assert forall|r: int| 0 <= r < n implies #[trigger] row_total(g, col, r, n) == sum(|c: int| h(r, c), n) by {
        lemma_row_as_sum(g, col, r, n, |c: int| h(r, c));
    }
    lemma_rows_as_sum(g, col, n, n, |r: int| sum(|c: int| h(r, c), n));
    assert forall|c: int| 0 <= c < n implies #[trigger] col_total(g, col, c, n) == sum(|r: int| h(r, c), n) by {
        lemma_col_as_sum(g, col, c, n, |r: int| h(r, c));
    }
    lemma_cols_as_sum(g, col, n, n, |c: int| sum(|r: int| h(r, c), n));
}

/// A rotated grid has as many tiles of each colour as the grid.
pub proof fn lemma_rotation_total(g: Seq<Seq<Colour>>, col: Colour, n: int, tt: TurnType)
    requires
        n >= 0,
    ensures
        grid_total(rotated_grid(g, n, tt), col, n) == grid_total(g, col, n),
{
    let rg = rotated_grid(g, n, tt);
    lemma_total_by_columns(g, col, n);
    let colsum = |c: int| col_total(g, col, c, n);
    let rows = |r: int| row_total(g, col, r, n);
    lemma_cols_as_sum(g, col, n, n, colsum);
    lemma_rows_as_sum(g, col, n, n, rows);
    match tt {
        TurnType::Clockwise => {
            // row r of rg is column r of g read upwards
            assert forall|r: int| 0 <= r < n implies #[trigger] row_total(rg, col, r, n) == colsum(r) by {
                let f = |i: int| ind(g[i][r] == col);
                lemma_sum_reverse(f, n);
                lemma_row_as_sum(rg, col, r, n, |i: int| f(n - 1 - i));
                lemma_col_as_sum(g, col, r, n, f);
            }
            lemma_rows_as_sum(rg, col, n, n, colsum);
        },
        TurnType::CounterClockwise => {
            // row r of rg is column n-1-r of g read downwards
            assert forall|r: int| 0 <= r < n implies #[trigger] row_total(rg, col, r, n) == colsum(n - 1 - r) by {
                let f = |i: int| ind(g[i][n - 1 - r] == col);
                lemma_row_as_sum(rg, col, r, n, f);
                lemma_col_as_sum(g, col, n - 1 - r, n, f);
            }
            lemma_rows_as_sum(rg, col, n, n, |r: int| colsum(n - 1 - r));
            lemma_sum_reverse(colsum, n);
        },
        TurnType::Half => {
            // row r of rg is row n-1-r of g read backwards
            assert forall|r: int| 0 <= r < n implies #[trigger] row_total(rg, col, r, n) == rows(n - 1 - r) by {
                let f = |i: int| ind(g[n - 1 - r][i] == col);
                lemma_sum_reverse(f, n);
                lemma_row_as_sum(rg, col, r, n, |i: int| f(n - 1 - i));
                lemma_row_as_sum(g, col, n - 1 - r, n, f);
            }
            lemma_rows_as_sum(rg, col, n, n, |r: int| rows(n - 1 - r));
            lemma_sum_reverse(rows, n);
        },
    }
}

/// The number of entries of colour `col` among the first `n` of `line`.
pub open spec fn line_total(line: Seq<Colour>, col: Colour, n: int) -> int
    decreases n,
{
    if n <= 0 {
        0
    } else {
        line_total(line, col, n - 1) + ind(line[n - 1] == col)
    }
}

/// A line count is the sum of the line's indicators.
proof fn lemma_line_as_sum(line: Seq<Colour>, col: Colour, n: int, f: spec_fn(int) -> int)
    requires
        forall|q: int| 0 <= q < n ==> #[trigger] f(q) == ind(line[q] == col),
    ensures
        line_total(line, col, n) == sum(f, n),
    decreases n,
{
    if n > 0 {
        lemma_line_as_sum(line, col, n - 1, f);
    }
}

/// Rows that agree on their first `n` tiles have the same count.
proof fn lemma_row_ext(g: Seq<Seq<Colour>>, g2: Seq<Seq<Colour>>, col: Colour, r: int, r2: int, n: int)
    requires
        forall|c: int| 0 <= c < n ==> #[trigger] g2[r2][c] == g[r][c],
    ensures
        row_total(g2, col, r2, n) == row_total(g, col, r, n),
    decreases n,
{
    if n > 0 {
        lemma_row_ext(g, g2, col, r, r2, n - 1);
    }
}

/// Changing one tile of a row changes its count by that tile alone.
proof fn lemma_row_one_change(g: Seq<Seq<Colour>>, g2: Seq<Seq<Colour>>, col: Colour, r: int, idx: int, n: int)
    requires
        0 <= idx < n,
        forall|c: int| 0 <= c < n && c != idx ==> #[trigger] g2[r][c] == g[r][c],
    ensures
        row_total(g2, col, r, n) == row_total(g, col, r, n) - ind(g[r][idx] == col) + ind(g2[r][idx] == col),
    decreases n,
{
    if n - 1 > idx {
        lemma_row_one_change(g, g2, col, r, idx, n - 1);
    } else {
        lemma_row_ext(g, g2, col, r, r, n - 1);
    }
}

/// A grid whose rows below `m` keep their counts, except row `idx`, whose
/// count changes by `d`, changes its count by `d` (when `idx < m`).
proof fn lemma_rows_one_change(g: Seq<Seq<Colour>>, g2: Seq<Seq<Colour>>, col: Colour, idx: int, m: int, n: int)
    requires
        0 <= idx,
        forall|r: int| 0 <= r < m && r != idx ==> #[trigger] row_total(g2, col, r, n) == row_total(g, col, r, n),
    ensures
        rows_total(g2, col, m, n) == rows_total(g, col, m, n) + if idx < m {
            row_total(g2, col, idx, n) - row_total(g, col, idx, n)
        } else {
            0
        },
    decreases m,
{
    if m > 0 {
        lemma_rows_one_change(g, g2, col, idx, m - 1, n);
    }
}

/// The position along a line of a tile at `(r, c)`, for a row or column line
/// read forwards or backwards.
pub open spec fn line_place(n: int, is_row: bool, reversed: bool, r: int, c: int) -> int {
    let p = if is_row { c } else { r };
    if reversed { n - 1 - p } else { p }
}

/// A line read backwards has the same count as read forwards.
proof fn lemma_line_reversed(line: Seq<Colour>, col: Colour, n: int, f: spec_fn(int) -> int)
    requires
        n >= 0,
        forall|p: int| 0 <= p < n ==> #[trigger] f(p) == ind(line[n - 1 - p] == col),
    ensures
        sum(f, n) == line_total(line, col, n),
{
    let h = |q: int| ind(line[q] == col);
    lemma_line_as_sum(line, col, n, h);
    lemma_sum_reverse(h, n);
    lemma_sum_ext(f, |p: int| h(n - 1 - p), n);
}

/// Replacing one row or column of a grid by the entries of `line` (read in
/// the line's direction) changes the grid's count by the line's count less the
/// count of what it replaced.
pub proof fn lemma_replace_line(
    g: Seq<Seq<Colour>>,
    g2: Seq<Seq<Colour>>,
    col: Colour,
    n: int,
    is_row: bool,
    idx: int,
    reversed: bool,
    line: Seq<Colour>,
)
    requires
        0 <= idx < n,
        forall|r: int, c: int| 0 <= r < n && 0 <= c < n ==> #[trigger] g2[r][c] == if (if is_row { r == idx } else { c == idx }) {
            line[line_place(n, is_row, reversed, r, c)]
        } else {
            g[r][c]
        },
    ensures
        grid_total(g2, col, n) == grid_total(g, col, n) - (if is_row {
            row_total(g, col, idx, n)
        } else {
            col_total(g, col, idx, n)
        }) + line_total(line, col, n),
{
    if is_row {
        assert forall|r: int| 0 <= r < n && r != idx implies #[trigger] row_total(g2, col, r, n) == row_total(g, col, r, n) by {
            assert forall|c: int| 0 <= c < n implies #[trigger] g2[r][c] == g[r][c] by {
                assert(g2[r][c] == g[r][c]);
            }
            lemma_row_ext(g, g2, col, r, r, n);
        }
        lemma_rows_one_change(g, g2, col, idx, n, n);
        // the replaced row counts as the line
        if reversed {
            let f = |c: int| ind(g2[idx][c] == col);
            assert forall|c: int| 0 <= c < n implies #[trigger] f(c) == ind(line[n - 1 - c] == col) by {
                assert(g2[idx][c] == line[n - 1 - c]);
            }
            lemma_row_as_sum(g2, col, idx, n, f);
            lemma_line_reversed(line, col, n, f);
        } else {
            let f = |c: int| ind(g2[idx][c] == col);
            assert forall|c: int| 0 <= c < n implies #[trigger] f(c) == ind(line[c] == col) by {
                assert(g2[idx][c] == line[c]);
            }
            lemma_row_as_sum(g2, col, idx, n, f);
            lemma_line_as_sum(line, col, n, f);
        }
    } else {
        // every row changes in column idx only
        let d = |r: int| ind(g2[r][idx] == col) - ind(g[r][idx] == col);
        assert forall|r: int| 0 <= r < n implies #[trigger] row_total(g2, col, r, n)
            == row_total(g, col, r, n) + d(r) by {
            assert forall|c: int| 0 <= c < n && c != idx implies #[trigger] g2[r][c] == g[r][c] by {
                assert(g2[r][c] == g[r][c]);
            }
            lemma_row_one_change(g, g2, col, r, idx, n);
        }
        let old_rows = |r: int| row_total(g, col, r, n);
        let new_rows = |r: int| row_total(g2, col, r, n);
        lemma_rows_as_sum(g, col, n, n, old_rows);
        lemma_rows_as_sum(g2, col, n, n, |r: int| old_rows(r) + d(r));
        lemma_sum_add(old_rows, d, n);
        let a = |r: int| ind(g2[r][idx] == col);
        let b = |r: int| ind(g[r][idx] == col);
        lemma_sum_sub(a, b, n);
        lemma_sum_ext(d, |r: int| a(r) - b(r), n);
        lemma_col_as_sum(g, col, idx, n, b);
        if reversed {
            assert forall|r: int| 0 <= r < n implies #[trigger] a(r) == ind(line[n - 1 - r] == col) by {
                assert(g2[r][idx] == line[n - 1 - r]);
            }
            lemma_line_reversed(line, col, n, a);
        } else {
            assert forall|r: int| 0 <= r < n implies #[trigger] a(r) == ind(line[r] == col) by {
                assert(g2[r][idx] == line[r]);
            }
            lemma_line_as_sum(line, col, n, a);
        }
    }
}

/// Which edge line of `f` lies on face number `k`, or 4 when none does.
pub open spec fn host<const SIZE: usize>(f: FaceType<SIZE>, k: int) -> int {
    if face_index(f.spec_edge(0).face) == k {
        0
    } else if face_index(f.spec_edge(1).face) == k {
        1
    } else if face_index(f.spec_edge(2).face) == k {
        2
    } else if face_index(f.spec_edge(3).face) == k {
        3
    } else {
        4
    }
}

/// The tiles of the line `e` of cube `v`, in the line's cycling direction.
pub open spec fn edge_line<const SIZE: usize>(v: Seq<Seq<Seq<Colour>>>, e: EdgeRef<SIZE>) -> Seq<Colour> {
    Seq::new(SIZE as nat, |q: int| v[edge_point(e, q).0][edge_point(e, q).1][edge_point(e, q).2])
}

/// The number of tiles of colour `col` on the line `e` of cube `v`.
pub open spec fn edge_count<const SIZE: usize>(v: Seq<Seq<Seq<Colour>>>, e: EdgeRef<SIZE>, col: Colour) -> int {
    line_total(edge_line(v, e), col, SIZE as int)
}

/// How the count of colour `col` on face `k` changes under the turn `t`: the
/// line that face gives up is replaced by the line that moves onto it.
pub open spec fn face_delta<const SIZE: usize>(v: Seq<Seq<Seq<Colour>>>, t: Turn<SIZE>, col: Colour, k: int) -> int {
    let f = t.face_type;
    let i = host(f, k);
    if i < 4 {
        edge_count(v, f.spec_edge(slot_after(i, shift(t.turn_type))), col) - edge_count(v, f.spec_edge(i), col)
    } else {
        0
    }
}

/// The changes of the faces numbered below `m`, summed.
pub open spec fn deltas_below<const SIZE: usize>(v: Seq<Seq<Seq<Colour>>>, t: Turn<SIZE>, col: Colour, m: int) -> int
    decreases m,
{
    if m <= 0 {
        0
    } else {
        deltas_below(v, t, col, m - 1) + face_delta(v, t, col, m - 1)
    }
}

/// The count of the line that an edge names, in the grid of its face, is the
/// count of the edge's line of tiles.
proof fn lemma_edge_count_in_grid<const SIZE: usize>(v: Seq<Seq<Seq<Colour>>>, e: EdgeRef<SIZE>, col: Colour)
    requires
        SIZE > 0,
        e.index < SIZE,
    ensures
        edge_count(v, e, col) == if e.is_row {
            row_total(v[face_index(e.face)], col, e.index as int, SIZE as int)
        } else {
            col_total(v[face_index(e.face)], col, e.index as int, SIZE as int)
        },
{
    let n = SIZE as int;
    let g = v[face_index(e.face)];
    let line = edge_line(v, e);
    let idx = e.index as int;
    if e.is_row {
        let f = |c: int| ind(g[idx][c] == col);
        lemma_row_as_sum(g, col, idx, n, f);
        if e.reversed {
            assert forall|c: int| 0 <= c < n implies #[trigger] f(c) == ind(line[n - 1 - c] == col) by {}
            lemma_line_reversed(line, col, n, f);
        } else {
            lemma_line_as_sum(line, col, n, f);
        }
    } else {
        let f = |r: int| ind(g[r][idx] == col);
        lemma_col_as_sum(g, col, idx, n, f);
        if e.reversed {
            assert forall|r: int| 0 <= r < n implies #[trigger] f(r) == ind(line[n - 1 - r] == col) by {}
            lemma_line_reversed(line, col, n, f);
        } else {
            lemma_line_as_sum(line, col, n, f);
        }
    }
}

/// Grids that agree on every tile have the same count.
proof fn lemma_grid_ext(g: Seq<Seq<Colour>>, g2: Seq<Seq<Colour>>, col: Colour, n: int)
    requires
        n >= 0,
        forall|r: int, c: int| 0 <= r < n && 0 <= c < n ==> #[trigger] g2[r][c] == g[r][c],
    ensures
        grid_total(g2, col, n) == grid_total(g, col, n),
{
    assert forall|r: int| 0 <= r < n implies #[trigger] row_total(g2, col, r, n) == row_total(g, col, r, n) by {
        assert forall|c: int| 0 <= c < n implies #[trigger] g2[r][c] == g[r][c] by {
            assert(g2[r][c] == g[r][c]);
        }
        lemma_row_ext(g, g2, col, r, r, n);
    }
    lemma_rows_one_change(g, g2, col, n, n, n);
}

/// The count of colour `col` on one face after a turn.
proof fn lemma_face_total_after_turn<const SIZE: usize>(v: Seq<Seq<Seq<Colour>>>, t: Turn<SIZE>, col: Colour, k: int)
    requires
        SIZE > 0,
        wf_view::<SIZE>(v),
        0 <= k < 6,
    ensures
        grid_total(turn_view(v, t)[k], col, SIZE as int) == grid_total(v[k], col, SIZE as int) + face_delta(v, t, col, k),
{
    let n = SIZE as int;
    let f = t.face_type;
    let tv = turn_view(v, t);
    lemma_edges_shape(f);
    if k == face_index(f) {
        let rg = rotated_grid(v[k], n, t.turn_type);
        assert forall|r: int, c: int| 0 <= r < n && 0 <= c < n implies #[trigger] tv[k][r][c] == rg[r][c] by {}
        lemma_grid_ext(rg, tv[k], col, n);
        lemma_rotation_total(v[k], col, n, t.turn_type);
    } else if host(f, k) < 4 {
        let i = host(f, k);
        let e = f.spec_edge(i);
        let j = slot_after(i, shift(t.turn_type));
        let line = edge_line(v, f.spec_edge(j));
        assert forall|r: int, c: int| 0 <= r < n && 0 <= c < n implies #[trigger] tv[k][r][c] == if (if e.is_row { r == e.index } else { c == e.index }) {
            line[line_place(n, e.is_row, e.reversed, r, c)]
        } else {
            v[k][r][c]
        } by {
            assert(valid_pos::<SIZE>(k, r, c));
            if on_edge(e, k, r, c) {
                assert(slot_of(f, k, r, c) == i);
            } else {
                assert(slot_of(f, k, r, c) == 4);
            }
        }
        lemma_replace_line(v[k], tv[k], col, n, e.is_row, e.index as int, e.reversed, line);
        lemma_edge_count_in_grid(v, e, col);
    } else {
        assert forall|r: int, c: int| 0 <= r < n && 0 <= c < n implies #[trigger] tv[k][r][c] == v[k][r][c] by {
            assert(slot_of(f, k, r, c) == 4);
        }
        lemma_grid_ext(v[k], tv[k], col, n);
    }
}

/// The counts of the first `m` faces after a turn, summed, differ from before
/// by the changes of those faces.
proof fn lemma_faces_total_after_turn<const SIZE: usize>(v: Seq<Seq<Seq<Colour>>>, t: Turn<SIZE>, col: Colour, m: int)
    requires
        SIZE > 0,
        wf_view::<SIZE>(v),
        0 <= m <= 6,
    ensures
        faces_total::<SIZE>(turn_view(v, t), col, m) == faces_total::<SIZE>(v, col, m) + deltas_below(v, t, col, m),
    decreases m,
{
    if m > 0 {
        lemma_faces_total_after_turn(v, t, col, m - 1);
        lemma_face_total_after_turn(v, t, col, m - 1);
    }
}

/// The lines move round a cycle of four, so what the faces gain and lose
/// cancels out.
proof fn lemma_deltas_cancel<const SIZE: usize>(v: Seq<Seq<Seq<Colour>>>, t: Turn<SIZE>, col: Colour)
    requires
        SIZE > 0,
    ensures
        deltas_below(v, t, col, 6) == 0,
{
    let f = t.face_type;
    let e0 = edge_count(v, f.spec_edge(0), col);
    let e1 = edge_count(v, f.spec_edge(1), col);
    let e2 = edge_count(v, f.spec_edge(2), col);
    let e3 = edge_count(v, f.spec_edge(3), col);
    assert(deltas_below(v, t, col, 6) == face_delta(v, t, col, 0) + face_delta(v, t, col, 1) + face_delta(v, t, col, 2)
        + face_delta(v, t, col, 3) + face_delta(v, t, col, 4) + face_delta(v, t, col, 5)) by {
        reveal_with_fuel(deltas_below, 7);
    }
    match f {
        FaceType::Top => {},
        FaceType::Bottom => {},
        FaceType::Front => {},
        FaceType::Back => {},
        FaceType::Left => {},
        FaceType::Right => {},
    }
}

/// A turn keeps the number of tiles of every colour.
pub proof fn law_turn_keeps_totals<const SIZE: usize>(v: Seq<Seq<Seq<Colour>>>, t: Turn<SIZE>, col: Colour)
    requires
        SIZE > 0,
        wf_view::<SIZE>(v),
    ensures
        cube_total::<SIZE>(turn_view(v, t), col) == cube_total::<SIZE>(v, col),
{
    lemma_faces_total_after_turn(v, t, col, 6);
    lemma_deltas_cancel(v, t, col);
}

/// A grid all of one colour has `n * n` tiles of that colour and none of any
/// other.
proof fn lemma_uniform_grid_total(g: Seq<Seq<Colour>>, c0: Colour, col: Colour, n: int)
    requires
        n >= 0,
        forall|r: int, c: int| 0 <= r < n && 0 <= c < n ==> #[trigger] g[r][c] == c0,
    ensures
        grid_total(g, col, n) == if c0 == col { n * n } else { 0 },
{
    let per_row = if c0 == col { n } else { 0 };
    assert forall|r: int| 0 <= r < n implies #[trigger] row_total(g, col, r, n) == per_row by {
        let f = |c: int| ind(g[r][c] == col);
        lemma_row_as_sum(g, col, r, n, f);
        crate::sums::lemma_sum_const(f, n, ind(c0 == col));
        assert(n * ind(c0 == col) == per_row) by (nonlinear_arith)
            requires
                ind(c0 == col) == 1 || ind(c0 == col) == 0,
                per_row == if ind(c0 == col) == 1 { n } else { 0 },
        ;
    }
    let rows = |r: int| row_total(g, col, r, n);
    lemma_rows_as_sum(g, col, n, n, rows);
    crate::sums::lemma_sum_const(rows, n, per_row);
    if c0 != col {
        assert(n * 0 == 0) by (nonlinear_arith);
    }
}

/// The colour of face `k` of a cube whose faces are each a single colour.
pub open spec fn face_colour(v: Seq<Seq<Seq<Colour>>>, k: int) -> Colour {
    v[k][0][0]
}

/// On a cube whose faces are each a single colour, the count of a colour is
/// `SIZE * SIZE` for each face of that colour.
proof fn lemma_solved_totals<const SIZE: usize>(v: Seq<Seq<Seq<Colour>>>, col: Colour)
    requires
        SIZE > 0,
        view_solved::<SIZE>(v),
    ensures
        cube_total::<SIZE>(v, col) == SIZE * SIZE * (ind(face_colour(v, 0) == col) + ind(face_colour(v, 1) == col)
            + ind(face_colour(v, 2) == col) + ind(face_colour(v, 3) == col) + ind(face_colour(v, 4) == col)
            + ind(face_colour(v, 5) == col)),
{
    let n = SIZE as int;
    assert forall|k: int| 0 <= k < 6 implies #[trigger] grid_total(v[k], col, n) == n * n * ind(face_colour(v, k) == col) by {
        assert forall|r: int, c: int| 0 <= r < n && 0 <= c < n implies #[trigger] v[k][r][c] == face_colour(v, k) by {
            assert(valid_pos::<SIZE>(k, r, c));
        }
        lemma_uniform_grid_total(v[k], face_colour(v, k), col, n);
    }
    assert(cube_total::<SIZE>(v, col) == grid_total(v[0], col, n) + grid_total(v[1], col, n) + grid_total(v[2], col, n)
        + grid_total(v[3], col, n) + grid_total(v[4], col, n) + grid_total(v[5], col, n)) by {
        reveal_with_fuel(faces_total, 7);
    }
    let a = n * n;
    assert(a * ind(face_colour(v, 0) == col) + a * ind(face_colour(v, 1) == col) + a * ind(face_colour(v, 2) == col)
        + a * ind(face_colour(v, 3) == col) + a * ind(face_colour(v, 4) == col) + a * ind(face_colour(v, 5) == col)
        == a * (ind(face_colour(v, 0) == col) + ind(face_colour(v, 1) == col) + ind(face_colour(v, 2) == col)
        + ind(face_colour(v, 3) == col) + ind(face_colour(v, 4) == col) + ind(face_colour(v, 5) == col))) by (nonlinear_arith);
}

/// On a balanced cube whose faces are each a single colour, no two faces
/// share a colour.
pub proof fn lemma_solved_balanced_distinct<const SIZE: usize>(v: Seq<Seq<Seq<Colour>>>, a: int, b: int)
    requires
        SIZE > 0,
        view_solved::<SIZE>(v),
        balanced::<SIZE>(v),
        0 <= a < 6,
        0 <= b < 6,
        a != b,
    ensures
        face_colour(v, a) != face_colour(v, b),
{
    let col = face_colour(v, a);
    lemma_solved_totals::<SIZE>(v, col);
    assert(cube_total::<SIZE>(v, col) == SIZE * SIZE);
    if face_colour(v, b) == col {
        let cnt = ind(face_colour(v, 0) == col) + ind(face_colour(v, 1) == col) + ind(face_colour(v, 2) == col)
            + ind(face_colour(v, 3) == col) + ind(face_colour(v, 4) == col) + ind(face_colour(v, 5) == col);
        assert(cnt >= 2);
        let s = SIZE as int;
        assert(s * s * cnt > s * s) by (nonlinear_arith)
            requires
                s > 0,
                cnt >= 2,
        ;
    }
}

/// The solved cube is balanced.
pub proof fn law_solved_is_balanced<const SIZE: usize>()
    requires
        SIZE > 0,
    ensures
        balanced::<SIZE>(crate::model::solved_view::<SIZE>()),
{
    let v = crate::model::solved_view::<SIZE>();
    assert forall|col: Colour| #[trigger] cube_total::<SIZE>(v, col) == SIZE * SIZE by {
        lemma_solved_totals::<SIZE>(v, col);
        assert(face_colour(v, 0) == Colour::White);
        assert(face_colour(v, 5) == Colour::Yellow);
        let cnt = ind(face_colour(v, 0) == col) + ind(face_colour(v, 1) == col) + ind(face_colour(v, 2) == col)
            + ind(face_colour(v, 3) == col) + ind(face_colour(v, 4) == col) + ind(face_colour(v, 5) == col);
        assert(cnt == 1) by {
            assert(face_colour(v, 1) == Colour::Red);
            assert(face_colour(v, 2) == Colour::Green);
            assert(face_colour(v, 3) == Colour::Blue);
            assert(face_colour(v, 4) == Colour::Orange);
        }
        let s = SIZE as int;
        assert(s * s * cnt == s * s) by (nonlinear_arith)
            requires
                cnt == 1,
        ;
    }
}

/// A balanced cube keeps being balanced after a turn.
pub proof fn law_turn_keeps_balance<const SIZE: usize>(v: Seq<Seq<Seq<Colour>>>, t: Turn<SIZE>)
    requires
        SIZE > 0,
        wf_view::<SIZE>(v),
        balanced::<SIZE>(v),
    ensures
        balanced::<SIZE>(turn_view(v, t)),
{
    assert forall|col: Colour| #[trigger] cube_total::<SIZE>(turn_view(v, t), col) == SIZE * SIZE by {
        law_turn_keeps_totals(v, t, col);
        assert(cube_total::<SIZE>(v, col) == SIZE * SIZE);
    }
}

/// Any turn of a solved, balanced cube of size 2 or more leaves it unsolved:
/// the first edge line of the turned face takes on the colour of another face
/// while the rest of its own face keeps its colour.
pub proof fn law_turn_unsolves<const SIZE: usize>(v: Seq<Seq<Seq<Colour>>>, t: Turn<SIZE>)
    requires
        SIZE >= 2,
        wf_view::<SIZE>(v),
        view_solved::<SIZE>(v),
        balanced::<SIZE>(v),
    ensures
        !view_solved::<SIZE>(turn_view(v, t)),
{
    let f = t.face_type;
    let w = turn_view(v, t);
    lemma_edges_shape(f);
    let e0 = f.spec_edge(0);
    let j = slot_after(0, shift(t.turn_type));
    let ej = f.spec_edge(j);
    let k0 = face_index(e0.face);
    let kj = face_index(ej.face);
    // a tile on the line, and one off it, of face k0
    let p1 = edge_point(e0, 0);
    let other = if e0.index == 0 { 1int } else { 0int };
    let p2 = if e0.is_row { (k0, other, 0int) } else { (k0, 0int, other) };
    lemma_edge_point_slot(f, 0, 0);
    lemma_edge_point_slot(f, j, 0);
    assert(valid_pos::<SIZE>(p2.0, p2.1, p2.2));
    assert(slot_of(f, p2.0, p2.1, p2.2) == 4);
    assert(w[p1.0][p1.1][p1.2] == v[kj][edge_point(ej, 0).1][edge_point(ej, 0).2]);
    assert(w[p2.0][p2.1][p2.2] == v[p2.0][p2.1][p2.2]);
    assert(valid_pos::<SIZE>(kj, edge_point(ej, 0).1, edge_point(ej, 0).2));
    assert(valid_pos::<SIZE>(k0, p2.1, p2.2));
    lemma_solved_balanced_distinct::<SIZE>(v, k0, kj);
    assert(valid_pos::<SIZE>(p1.0, p1.1, p1.2));
    assert(valid_pos::<SIZE>(p2.0, p2.1, p2.2));
}

} // verus!
