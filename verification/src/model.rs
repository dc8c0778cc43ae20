//! The mathematical model of a cube and of what a turn does to it.
//!
//! A cube is seen as a sequence of six faces (in the order of `face_index`),
//! each a square grid of colours. A turn moves tiles: the tile that lands at a
//! position comes from the position that `turn_src` names.
use vstd::prelude::*;

use crate::face::{face_index, rot_src, solved_colour, Colour, EdgeRef, FaceType};
use crate::turn::{Turn, TurnType};

verus! {

/// How far the four edge lines move round the cycle: the line written at slot
/// `i` is the one read at slot `(i + shift) % 4`.
pub open spec fn shift(tt: TurnType) -> int {
    match tt {
        TurnType::Clockwise => 3,
        TurnType::CounterClockwise => 1,
        TurnType::Half => 2,
    }
}

/// The slot `s` places after slot `i` in the cycle of four.
pub open spec fn slot_after(i: int, s: int) -> int {
    if i + s < 4 { i + s } else { i + s - 4 }
}

/// The position `(k, r, c)` lies on the line that `e` names.
pub open spec fn on_edge<const SIZE: usize>(e: EdgeRef<SIZE>, k: int, r: int, c: int) -> bool {
    &&& face_index(e.face) == k
    &&& if e.is_row { r == e.index } else { c == e.index }
}

/// The place of `(r, c)` along the line `e`, counted in the line's cycling
/// direction.
pub open spec fn along<const SIZE: usize>(e: EdgeRef<SIZE>, r: int, c: int) -> int {
    let p = if e.is_row { c } else { r };
    if e.reversed { SIZE - 1 - p } else { p }
}

/// The position at place `q` along the line `e`.
pub open spec fn edge_point<const SIZE: usize>(e: EdgeRef<SIZE>, q: int) -> (int, int, int) {
    let p = if e.reversed { SIZE - 1 - q } else { q };
    if e.is_row {
        (face_index(e.face), e.index as int, p)
    } else {
        (face_index(e.face), p, e.index as int)
    }
}

/// A position on a cube of the given size: a face number, a row and a column.
pub open spec fn valid_pos<const SIZE: usize>(k: int, r: int, c: int) -> bool {
    0 <= k < 6 && 0 <= r < SIZE && 0 <= c < SIZE
}

/// Which of the four edge lines of `f` the position `(k, r, c)` lies on, or 4
/// when it lies on none of them.
pub open spec fn slot_of<const SIZE: usize>(f: FaceType<SIZE>, k: int, r: int, c: int) -> int {
    if on_edge(f.spec_edge(0), k, r, c) {
        0
    } else if on_edge(f.spec_edge(1), k, r, c) {
        1
    } else if on_edge(f.spec_edge(2), k, r, c) {
        2
    } else if on_edge(f.spec_edge(3), k, r, c) {
        3
    } else {
        4
    }
}

/// The position whose tile lands at `(k, r, c)` when the edge lines round the
/// face of `t` are cycled.
pub open spec fn cycle_src<const SIZE: usize>(t: Turn<SIZE>, k: int, r: int, c: int) -> (int, int, int) {
    let f = t.face_type;
    let i = slot_of(f, k, r, c);
    if i < 4 {
        edge_point(f.spec_edge(slot_after(i, shift(t.turn_type))), along(f.spec_edge(i), r, c))
    } else {
        (k, r, c)
    }
}

/// The position whose tile lands at `(k, r, c)` when the turn `t` is made: the
/// turned face rotates, the edge lines round it cycle, nothing else moves.
pub open spec fn turn_src<const SIZE: usize>(t: Turn<SIZE>, k: int, r: int, c: int) -> (int, int, int) {
    if k == face_index(t.face_type) {
        let rc = rot_src(SIZE as int, t.turn_type, r, c);
        (k, rc.0, rc.1)
    } else {
        cycle_src(t, k, r, c)
    }
}

/// The sequence has the shape of a cube of the given size.
pub open spec fn wf_view<const SIZE: usize>(v: Seq<Seq<Seq<Colour>>>) -> bool {
    &&& v.len() == 6
    &&& forall|k: int| 0 <= k < 6 ==> #[trigger] v[k].len() == SIZE
    &&& forall|k: int, r: int| 0 <= k < 6 && 0 <= r < SIZE ==> #[trigger] v[k][r].len() == SIZE
}

/// The cube `v` after the turn `t`.
pub open spec fn turn_view<const SIZE: usize>(v: Seq<Seq<Seq<Colour>>>, t: Turn<SIZE>) -> Seq<Seq<Seq<Colour>>> {
    Seq::new(
        6,
        |k: int|
            Seq::new(
                SIZE as nat,
                |r: int|
                    Seq::new(
                        SIZE as nat,
                        |c: int|
                            {
                                let p = turn_src(t, k, r, c);
                                v[p.0][p.1][p.2]
                            },
                    ),
            ),
    )
}

/// The cube `v` after the turns `ts`, made in order.
pub open spec fn apply_turns<const SIZE: usize>(v: Seq<Seq<Seq<Colour>>>, ts: Seq<Turn<SIZE>>) -> Seq<Seq<Seq<Colour>>>
    decreases ts.len(),
{
    if ts.len() == 0 {
        v
    } else {
        apply_turns(turn_view(v, ts[0]), ts.drop_first())
    }
}

/// The solved cube: every face has its own colour.
pub open spec fn solved_view<const SIZE: usize>() -> Seq<Seq<Seq<Colour>>> {
    Seq::new(6, |k: int| Seq::new(SIZE as nat, |r: int| Seq::new(SIZE as nat, |c: int| solved_colour(k))))
}

/// Every face of `v` is a single colour.
pub open spec fn view_solved<const SIZE: usize>(v: Seq<Seq<Seq<Colour>>>) -> bool {
    forall|k: int, r: int, c: int| #[trigger] valid_pos::<SIZE>(k, r, c) ==> v[k][r][c] == v[k][0][0]
}

/// Face number `k` of `v` is a single colour.
pub open spec fn face_single_colour<const SIZE: usize>(v: Seq<Seq<Seq<Colour>>>, k: int) -> bool {
    forall|r: int, c: int| 0 <= r < SIZE && 0 <= c < SIZE ==> #[trigger] v[k][r][c] == v[k][0][0]
}

/// How many of the faces numbered below `m` of `v` are a single colour.
pub open spec fn single_colour_faces<const SIZE: usize>(v: Seq<Seq<Seq<Colour>>>, m: int) -> nat
    decreases m,
{
    if m <= 0 {
        0
    } else {
        single_colour_faces::<SIZE>(v, m - 1) + if face_single_colour::<SIZE>(v, m - 1) { 1nat } else { 0nat }
    }
}

/// The number of the face opposite face number `k`.
pub open spec fn opposite(k: int) -> int {
    if k % 2 == 0 { k + 1 } else { k - 1 }
}

/// The four edges of every face lie on four different faces, none of them
/// the turned face itself, and each names a row or column inside the face.
pub proof fn lemma_edges_shape<const SIZE: usize>(f: FaceType<SIZE>)
    requires
        SIZE > 0,
    ensures
        forall|i: int| 0 <= i < 4 ==> face_index(#[trigger] f.spec_edge(i).face) != face_index(f),
        forall|i: int, j: int| 0 <= i < 4 && 0 <= j < 4 && i != j ==>
            face_index(#[trigger] f.spec_edge(i).face) != face_index(#[trigger] f.spec_edge(j).face),
        forall|i: int| 0 <= i < 4 ==> (#[trigger] f.spec_edge(i)).index < SIZE,
{
}

/// A position that a turn reads from is a position of the cube.
pub proof fn lemma_src_valid<const SIZE: usize>(t: Turn<SIZE>, k: int, r: int, c: int)
    requires
        SIZE > 0,
        valid_pos::<SIZE>(k, r, c),
    ensures
        valid_pos::<SIZE>(turn_src(t, k, r, c).0, turn_src(t, k, r, c).1, turn_src(t, k, r, c).2),
{
    lemma_edges_shape(t.face_type);
    match t.face_type {
        FaceType::Top => {},
        FaceType::Bottom => {},
        FaceType::Front => {},
        FaceType::Back => {},
        FaceType::Left => {},
        FaceType::Right => {},
    }
}

/// The point at place `q` of edge line `j` lies on that line and on no other,
/// at place `q`, and not on the turned face.
pub proof fn lemma_edge_point_slot<const SIZE: usize>(f: FaceType<SIZE>, j: int, q: int)
    requires
        SIZE > 0,
        0 <= j < 4,
        0 <= q < SIZE,
    ensures
        ({
            let p = edge_point(f.spec_edge(j), q);
            &&& valid_pos::<SIZE>(p.0, p.1, p.2)
            &&& p.0 != face_index(f)
            &&& slot_of(f, p.0, p.1, p.2) == j
            &&& along(f.spec_edge(j), p.1, p.2) == q
        }),
{
    lemma_edges_shape(f);
    match f {
        FaceType::Top => {},
        FaceType::Bottom => {},
        FaceType::Front => {},
        FaceType::Back => {},
        FaceType::Left => {},
        FaceType::Right => {},
    }
}

/// A position on edge line `j` is the point at its own place along that line.
pub proof fn lemma_slot_edge_point<const SIZE: usize>(f: FaceType<SIZE>, k: int, r: int, c: int)
    requires
        SIZE > 0,
        valid_pos::<SIZE>(k, r, c),
        slot_of(f, k, r, c) < 4,
    ensures
        edge_point(f.spec_edge(slot_of(f, k, r, c)), along(f.spec_edge(slot_of(f, k, r, c)), r, c)) == (k, r, c),
        0 <= along(f.spec_edge(slot_of(f, k, r, c)), r, c) < SIZE,
        k != face_index(f),
{
    lemma_edges_shape(f);
    match f {
        FaceType::Top => {},
        FaceType::Bottom => {},
        FaceType::Front => {},
        FaceType::Back => {},
        FaceType::Left => {},
        FaceType::Right => {},
    }
}

/// Reading where `t` takes a tile from, after reading where its inverse takes
/// it from, leads back to the same position.
pub proof fn lemma_src_inverse<const SIZE: usize>(t: Turn<SIZE>, k: int, r: int, c: int)
    requires
        SIZE > 0,
        valid_pos::<SIZE>(k, r, c),
    ensures
        ({
            let p = turn_src(t.inverse(), k, r, c);
            turn_src(t, p.0, p.1, p.2)
        }) == (k, r, c),
{
    let f = t.face_type;
    if k == face_index(f) {
    } else {
        let j = slot_of(f, k, r, c);
        if j < 4 {
            lemma_slot_edge_point(f, k, r, c);
            let q = along(f.spec_edge(j), r, c);
            let j1 = slot_after(j, shift(t.inverse().turn_type));
            lemma_edge_point_slot(f, j1, q);
        }
    }
}

/// Two clockwise turns of a face read their tiles from where a half turn of
/// that face reads them.
pub proof fn lemma_src_two_clockwise<const SIZE: usize>(f: FaceType<SIZE>, k: int, r: int, c: int)
    requires
        SIZE > 0,
        valid_pos::<SIZE>(k, r, c),
    ensures
        ({
            let cw = Turn { face_type: f, turn_type: TurnType::Clockwise };
            let p = turn_src(cw, k, r, c);
            turn_src(cw, p.0, p.1, p.2)
        }) == turn_src(Turn { face_type: f, turn_type: TurnType::Half }, k, r, c),
{
    if k == face_index(f) {
    } else {
        let j = slot_of(f, k, r, c);
        if j < 4 {
            lemma_slot_edge_point(f, k, r, c);
            let q = along(f.spec_edge(j), r, c);
            lemma_edge_point_slot(f, slot_after(j, 3), q);
        }
    }
}

} // verus!
