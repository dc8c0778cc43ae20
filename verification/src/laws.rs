//! What holds of every cube and every turn.
use vstd::prelude::*;

use crate::cube::Cube;
use crate::face::{face_index, face_turned, rot_src, solved_colour, Colour, EdgeRef, Face, FaceType};
use crate::model::{
    apply_turns, edge_point, face_single_colour, lemma_edge_point_slot, lemma_edges_shape, lemma_src_inverse,
    opposite, shift, single_colour_faces, slot_after, slot_of, turn_src, lemma_src_two_clockwise, lemma_src_valid, solved_view,
    turn_view, valid_pos, view_solved, wf_view,
};
use crate::turn::{Turn, TurnType};

verus! {

/// A turned cube still has the shape of a cube.
pub proof fn law_turn_keeps_shape<const SIZE: usize>(v: Seq<Seq<Seq<Colour>>>, t: Turn<SIZE>)
    ensures
        wf_view::<SIZE>(turn_view(v, t)),
{
}

/// Turning a face and then turning it back gives the cube that was there
/// before.
pub proof fn law_turn_then_inverse<const SIZE: usize>(v: Seq<Seq<Seq<Colour>>>, t: Turn<SIZE>)
    requires
        SIZE > 0,
        wf_view::<SIZE>(v),
    ensures
        turn_view(turn_view(v, t), t.inverse()) == v,
{
    let w = turn_view(turn_view(v, t), t.inverse());
    assert forall|k: int, r: int, c: int| valid_pos::<SIZE>(k, r, c) implies #[trigger] w[k][r][c] == v[k][r][c] by {
        lemma_src_valid(t.inverse(), k, r, c);
        lemma_src_inverse(t, k, r, c);
    }
    assert(w =~~= v);
}

/// Turning a face back and then turning it gives the cube that was there
/// before.
pub proof fn law_inverse_then_turn<const SIZE: usize>(v: Seq<Seq<Seq<Colour>>>, t: Turn<SIZE>)
    requires
        SIZE > 0,
        wf_view::<SIZE>(v),
    ensures
        turn_view(turn_view(v, t.inverse()), t) == v,
{
    assert(t.inverse().inverse() == t);
    law_turn_then_inverse(v, t.inverse());
}

/// Two clockwise turns of a face are a half turn of it.
pub proof fn law_two_clockwise_is_half<const SIZE: usize>(v: Seq<Seq<Seq<Colour>>>, f: FaceType<SIZE>)
    requires
        SIZE > 0,
        wf_view::<SIZE>(v),
    ensures
        turn_view(turn_view(v, Turn { face_type: f, turn_type: TurnType::Clockwise }), Turn { face_type: f, turn_type: TurnType::Clockwise })
            == turn_view(v, Turn { face_type: f, turn_type: TurnType::Half }),
{
    let cw = Turn { face_type: f, turn_type: TurnType::Clockwise };
    let half = Turn { face_type: f, turn_type: TurnType::Half };
    let w = turn_view(turn_view(v, cw), cw);
    let h = turn_view(v, half);
    assert forall|k: int, r: int, c: int| valid_pos::<SIZE>(k, r, c) implies #[trigger] w[k][r][c] == h[k][r][c] by {
        lemma_src_valid(cw, k, r, c);
        lemma_src_two_clockwise(f, k, r, c);
    }
    assert(w =~~= h);
}

/// Four clockwise turns of the same face give back the cube that was there
/// before.
pub proof fn law_four_clockwise<const SIZE: usize>(v: Seq<Seq<Seq<Colour>>>, f: FaceType<SIZE>)
    requires
        SIZE > 0,
        wf_view::<SIZE>(v),
    ensures
        ({
            let cw = Turn { face_type: f, turn_type: TurnType::Clockwise };
            turn_view(turn_view(turn_view(turn_view(v, cw), cw), cw), cw)
        }) == v,
{
    let cw = Turn { face_type: f, turn_type: TurnType::Clockwise };
    let half = Turn { face_type: f, turn_type: TurnType::Half };
    law_two_clockwise_is_half(v, f);
    let w = turn_view(turn_view(v, cw), cw);
    law_two_clockwise_is_half(w, f);
    assert(half.inverse() == half);
    law_turn_then_inverse(v, half);
}

/// Three clockwise turns of a face are one counterclockwise turn of it.
pub proof fn law_three_clockwise_is_counterclockwise<const SIZE: usize>(v: Seq<Seq<Seq<Colour>>>, f: FaceType<SIZE>)
    requires
        SIZE > 0,
        wf_view::<SIZE>(v),
    ensures
        ({
            let cw = Turn { face_type: f, turn_type: TurnType::Clockwise };
            turn_view(turn_view(turn_view(v, cw), cw), cw)
        }) == turn_view(v, Turn { face_type: f, turn_type: TurnType::CounterClockwise }),
{
    let cw = Turn { face_type: f, turn_type: TurnType::Clockwise };
    let ccw = Turn { face_type: f, turn_type: TurnType::CounterClockwise };
    let w = turn_view(turn_view(turn_view(v, cw), cw), cw);
    law_four_clockwise(v, f);
    assert(cw.inverse() == ccw);
    // w turned clockwise is v, so w is v turned counterclockwise.
    law_turn_then_inverse(w, cw);
}

/// Making the turns `first` and then the turns `second` is making the turns of
/// both, one after the other.
pub proof fn law_apply_concat<const SIZE: usize>(v: Seq<Seq<Seq<Colour>>>, first: Seq<Turn<SIZE>>, second: Seq<Turn<SIZE>>)
    ensures
        apply_turns(v, first + second) == apply_turns(apply_turns(v, first), second),
    decreases first.len(),
{
    if first.len() == 0 {
        assert(first + second =~= second);
    } else {
        assert((first + second).drop_first() =~= first.drop_first() + second);
        law_apply_concat(turn_view(v, first[0]), first.drop_first(), second);
    }
}

/// The turns that undo `ts`: the inverse of each, in reverse order.
pub open spec fn undo_turns<const SIZE: usize>(ts: Seq<Turn<SIZE>>) -> Seq<Turn<SIZE>>
    decreases ts.len(),
{
    if ts.len() == 0 {
        Seq::empty()
    } else {
        undo_turns(ts.drop_first()).push(ts[0].inverse())
    }
}

/// A sequence of turns followed by its undoing gives back the cube that was
/// there before.
pub proof fn law_undo_turns<const SIZE: usize>(v: Seq<Seq<Seq<Colour>>>, ts: Seq<Turn<SIZE>>)
    requires
        SIZE > 0,
        wf_view::<SIZE>(v),
    ensures
        apply_turns(apply_turns(v, ts), undo_turns(ts)) == v,
    decreases ts.len(),
{
    if ts.len() > 0 {
        let w = turn_view(v, ts[0]);
        let rest = ts.drop_first();
        law_undo_turns(w, rest);
        // apply(apply(v, ts), undo(rest) + [inv]) == apply(apply(apply(w, rest), undo(rest)), [inv])
        law_apply_concat(apply_turns(w, rest), undo_turns(rest), seq![ts[0].inverse()]);
        assert(undo_turns(rest) + seq![ts[0].inverse()] =~= undo_turns(ts));
        let one = seq![ts[0].inverse()];
        assert(one.drop_first() =~= Seq::<Turn<SIZE>>::empty());
        assert(apply_turns(w, one) == apply_turns(turn_view(w, ts[0].inverse()), Seq::<Turn<SIZE>>::empty()));
        law_turn_then_inverse(v, ts[0]);
        assert(apply_turns(w, one) == v);
        assert(apply_turns(v, ts) == apply_turns(w, rest));
    }
}

/// The solved cube has every face a single colour, face `k` in the colour
/// that `solved_colour` gives it.
pub proof fn law_solved_view_is_solved<const SIZE: usize>()
    ensures
        wf_view::<SIZE>(solved_view::<SIZE>()),
        view_solved::<SIZE>(solved_view::<SIZE>()),
        forall|k: int, r: int, c: int| #[trigger] valid_pos::<SIZE>(k, r, c) ==>
            solved_view::<SIZE>()[k][r][c] == solved_colour(k),
{
}

/// A cube turned and then turned back is the cube it was.
pub proof fn law_cube_turn_then_inverse<const SIZE: usize>(before: Cube<SIZE>, turned: Cube<SIZE>, after: Cube<SIZE>, t: Turn<SIZE>)
    requires
        SIZE > 0,
        turned@ == turn_view(before@, t),
        after@ == turn_view(turned@, t.inverse()),
    ensures
        after == before,
{
    before.lemma_view_wf();
    law_turn_then_inverse(before@, t);
    Cube::lemma_view_determines(after, before);
}

/// The line that `e` names: its face number, whether it is a row, and its
/// index.
pub open spec fn strip<const SIZE: usize>(e: EdgeRef<SIZE>) -> (int, bool, int) {
    (face_index(e.face), e.is_row, e.index as int)
}

/// On a cube of size 2 or more, every edge line that a turn cycles is a border
/// row or column of its face, and the 24 edge lines of the six faces are 24
/// different lines: no line is cycled by two faces.
pub proof fn law_edge_lines_distinct<const SIZE: usize>(f: FaceType<SIZE>, i: int, g: FaceType<SIZE>, j: int)
    requires
        SIZE >= 2,
        0 <= i < 4,
        0 <= j < 4,
    ensures
        f.spec_edge(i).index == 0 || f.spec_edge(i).index == SIZE - 1,
        strip(f.spec_edge(i)) == strip(g.spec_edge(j)) ==> f == g && i == j,
{
    match f {
        FaceType::Top => {},
        FaceType::Bottom => {},
        FaceType::Front => {},
        FaceType::Back => {},
        FaceType::Left => {},
        FaceType::Right => {},
    }
}

/// The face and slot whose turn cycles the border line of face `k` that is a
/// row (or a column) at index 0 (or at the last index).
pub open spec fn border_owner<const SIZE: usize>(k: int, is_row: bool, at_last: bool) -> (FaceType<SIZE>, int) {
    if k == 0 {
        if is_row { if at_last { (FaceType::Front, 0) } else { (FaceType::Back, 0) } }
        else { if at_last { (FaceType::Right, 1) } else { (FaceType::Left, 3) } }
    } else if k == 1 {
        if is_row { if at_last { (FaceType::Back, 2) } else { (FaceType::Front, 2) } }
        else { if at_last { (FaceType::Right, 3) } else { (FaceType::Left, 1) } }
    } else if k == 2 {
        if is_row { if at_last { (FaceType::Bottom, 0) } else { (FaceType::Top, 0) } }
        else { if at_last { (FaceType::Right, 0) } else { (FaceType::Left, 0) } }
    } else if k == 3 {
        if is_row { if at_last { (FaceType::Bottom, 2) } else { (FaceType::Top, 2) } }
        else { if at_last { (FaceType::Left, 2) } else { (FaceType::Right, 2) } }
    } else if k == 4 {
        if is_row { if at_last { (FaceType::Bottom, 3) } else { (FaceType::Top, 1) } }
        else { if at_last { (FaceType::Front, 3) } else { (FaceType::Back, 1) } }
    } else {
        if is_row { if at_last { (FaceType::Bottom, 1) } else { (FaceType::Top, 3) } }
        else { if at_last { (FaceType::Back, 3) } else { (FaceType::Front, 1) } }
    }
}

/// Every border row and column of every face is an edge line of some turned
/// face: together with `law_edge_lines_distinct`, each of the 24 border lines
/// is cycled by exactly one face.
pub proof fn law_border_lines_cycled<const SIZE: usize>(k: int, is_row: bool, at_last: bool)
    requires
        SIZE >= 2,
        0 <= k < 6,
    ensures
        ({
            let o = border_owner::<SIZE>(k, is_row, at_last);
            &&& 0 <= o.1 < 4
            &&& strip(o.0.spec_edge(o.1)) == (k, is_row, if at_last { SIZE - 1 } else { 0 })
        }),
{
}

/// After one turn of a solved cube of size 2 or more, the side face that holds
/// edge line `i` of the turned face is not a single colour: the line has the
/// colour of the face it came from, the rest of the side face keeps its own.
proof fn lemma_side_face_mixed<const SIZE: usize>(t: Turn<SIZE>, i: int)
    requires
        SIZE >= 2,
        0 <= i < 4,
    ensures
        !face_single_colour::<SIZE>(turn_view(solved_view::<SIZE>(), t), face_index(t.face_type.spec_edge(i).face)),
{
    let f = t.face_type;
    let v = solved_view::<SIZE>();
    let w = turn_view(v, t);
    lemma_edges_shape(f);
    let ei = f.spec_edge(i);
    let j = slot_after(i, shift(t.turn_type));
    let ej = f.spec_edge(j);
    let ki = face_index(ei.face);
    let kj = face_index(ej.face);
    let p1 = edge_point(ei, 0);
    let other = if ei.index == 0 { 1int } else { 0int };
    let p2 = if ei.is_row { (ki, other, 0int) } else { (ki, 0int, other) };
    lemma_edge_point_slot(f, i, 0);
    lemma_edge_point_slot(f, j, 0);
    assert(valid_pos::<SIZE>(p2.0, p2.1, p2.2));
    assert(slot_of(f, p2.0, p2.1, p2.2) == 4) by {
        match f {
            FaceType::Top => {},
            FaceType::Bottom => {},
            FaceType::Front => {},
            FaceType::Back => {},
            FaceType::Left => {},
            FaceType::Right => {},
        }
    }
    assert(w[p1.0][p1.1][p1.2] == solved_colour(kj));
    assert(w[p2.0][p2.1][p2.2] == solved_colour(ki));
    assert(solved_colour(kj) != solved_colour(ki));
}

/// One turn of a solved cube leaves the turned face a single colour.
proof fn lemma_turned_face_single<const SIZE: usize>(t: Turn<SIZE>)
    requires
        SIZE >= 2,
    ensures
        face_single_colour::<SIZE>(turn_view(solved_view::<SIZE>(), t), face_index(t.face_type)),
{
    let kf = face_index(t.face_type);
    let w = turn_view(solved_view::<SIZE>(), t);
    assert forall|r: int, c: int| 0 <= r < SIZE && 0 <= c < SIZE implies #[trigger] w[kf][r][c] == w[kf][0][0] by {
        lemma_src_valid(t, kf, r, c);
        lemma_src_valid(t, kf, 0, 0);
    }
}

/// One turn of a solved cube leaves the face opposite the turned face as it
/// was.
proof fn lemma_opposite_face_single<const SIZE: usize>(t: Turn<SIZE>)
    requires
        SIZE >= 2,
    ensures
        face_single_colour::<SIZE>(turn_view(solved_view::<SIZE>(), t), opposite(face_index(t.face_type))),
{
    let ko = opposite(face_index(t.face_type));
    let w = turn_view(solved_view::<SIZE>(), t);
    assert forall|r: int, c: int| 0 <= r < SIZE && 0 <= c < SIZE implies #[trigger] w[ko][r][c] == w[ko][0][0] by {
        match t.face_type {
            FaceType::Top => {},
            FaceType::Bottom => {},
            FaceType::Front => {},
            FaceType::Back => {},
            FaceType::Left => {},
            FaceType::Right => {},
        }
    }
}

/// Every face is the turned face, the face opposite it, or the face of one of
/// its four edge lines.
proof fn lemma_faces_round<const SIZE: usize>(f: FaceType<SIZE>, k: int)
    requires
        0 <= k < 6,
    ensures
        k == face_index(f) || k == opposite(face_index(f)) || k == face_index(f.spec_edge(0).face)
            || k == face_index(f.spec_edge(1).face) || k == face_index(f.spec_edge(2).face)
            || k == face_index(f.spec_edge(3).face),
        k == face_index(f) ==> k != opposite(face_index(f)),
{
    match f {
        FaceType::Top => {},
        FaceType::Bottom => {},
        FaceType::Front => {},
        FaceType::Back => {},
        FaceType::Left => {},
        FaceType::Right => {},
    }
}

/// One turn of a solved cube of size 2 or more leaves exactly two faces a
/// single colour: the turned face and the face opposite it.
pub proof fn law_one_turn_two_faces<const SIZE: usize>(t: Turn<SIZE>)
    requires
        SIZE >= 2,
    ensures
        forall|k: int| 0 <= k < 6 ==> (#[trigger] face_single_colour::<SIZE>(turn_view(solved_view::<SIZE>(), t), k)
            <==> (k == face_index(t.face_type) || k == opposite(face_index(t.face_type)))),
        single_colour_faces::<SIZE>(turn_view(solved_view::<SIZE>(), t), 6) == 2,
{
    let f = t.face_type;
    let w = turn_view(solved_view::<SIZE>(), t);
    let kf = face_index(f);
    let ko = opposite(kf);
    lemma_edges_shape(f);
    lemma_turned_face_single(t);
    lemma_opposite_face_single(t);
    lemma_side_face_mixed(t, 0);
    lemma_side_face_mixed(t, 1);
    lemma_side_face_mixed(t, 2);
    lemma_side_face_mixed(t, 3);
    assert forall|k: int| 0 <= k < 6 implies (#[trigger] face_single_colour::<SIZE>(w, k) <==> (k == kf || k == ko)) by {
        lemma_faces_round(f, k);
        lemma_faces_round(f, ko);
        lemma_faces_round(f, kf);
    }
    assert(single_colour_faces::<SIZE>(w, 6) == 2) by {
        reveal_with_fuel(single_colour_faces, 7);
        assert(face_single_colour::<SIZE>(w, 0) == (0 == kf || 0 == ko));
        assert(face_single_colour::<SIZE>(w, 1) == (1 == kf || 1 == ko));
        assert(face_single_colour::<SIZE>(w, 2) == (2 == kf || 2 == ko));
        assert(face_single_colour::<SIZE>(w, 3) == (3 == kf || 3 == ko));
        assert(face_single_colour::<SIZE>(w, 4) == (4 == kf || 4 == ko));
        assert(face_single_colour::<SIZE>(w, 5) == (5 == kf || 5 == ko));
        assert(0 <= kf < 6 && kf != ko && 0 <= ko < 6);
    }
}

/// Where the tile at `(r, c)` comes from after a turn by `tt` and then by its
/// inverse is `(r, c)` itself, and that position lies on the face.
proof fn lemma_rot_src_inverse(n: int, tt: TurnType, r: int, c: int)
    requires
        0 <= r < n,
        0 <= c < n,
    ensures
        ({
            let p = rot_src(n, tt.inverse(), r, c);
            &&& 0 <= p.0 < n
            &&& 0 <= p.1 < n
            &&& rot_src(n, tt, p.0, p.1) == (r, c)
        }),
{
}

/// A face turned by `tt` and then by the inverse of `tt` is the face it was.
pub proof fn law_face_turn_then_inverse<const SIZE: usize>(a: Face<SIZE>, b: Face<SIZE>, c: Face<SIZE>, tt: TurnType)
    requires
        face_turned(a, b, tt),
        face_turned(b, c, tt.inverse()),
    ensures
        c == a,
{
    let n = SIZE as int;
    assert forall|r: int, col: int| 0 <= r < SIZE && 0 <= col < SIZE implies c.tile(r, col) == a.tile(r, col) by {
        lemma_rot_src_inverse(n, tt, r, col);
        let p = rot_src(n, tt.inverse(), r, col);
        assert(c.tile(r, col) == b.tile(p.0, p.1));
        assert(b.tile(p.0, p.1) == a.tile(rot_src(n, tt, p.0, p.1).0, rot_src(n, tt, p.0, p.1).1));
    }
    Face::lemma_tiles_determine(c, a);
}

/// Two clockwise turns of a face give the same face as a half turn.
pub proof fn law_face_two_clockwise_is_half<const SIZE: usize>(a: Face<SIZE>, b: Face<SIZE>, c: Face<SIZE>, d: Face<SIZE>)
    requires
        face_turned(a, b, TurnType::Clockwise),
        face_turned(b, c, TurnType::Clockwise),
        face_turned(a, d, TurnType::Half),
    ensures
        c == d,
{
    let n = SIZE as int;
    assert forall|r: int, col: int| 0 <= r < SIZE && 0 <= col < SIZE implies c.tile(r, col) == d.tile(r, col) by {
        let p = rot_src(n, TurnType::Clockwise, r, col);
        assert(c.tile(r, col) == b.tile(p.0, p.1));
        assert(b.tile(p.0, p.1) == a.tile(rot_src(n, TurnType::Clockwise, p.0, p.1).0, rot_src(n, TurnType::Clockwise, p.0, p.1).1));
        assert(d.tile(r, col) == a.tile(rot_src(n, TurnType::Half, r, col).0, rot_src(n, TurnType::Half, r, col).1));
    }
    Face::lemma_tiles_determine(c, d);
}

/// Four clockwise turns of a face give back the face it was.
pub proof fn law_face_four_clockwise<const SIZE: usize>(a: Face<SIZE>, b: Face<SIZE>, c: Face<SIZE>, d: Face<SIZE>, e: Face<SIZE>)
    requires
        face_turned(a, b, TurnType::Clockwise),
        face_turned(b, c, TurnType::Clockwise),
        face_turned(c, d, TurnType::Clockwise),
        face_turned(d, e, TurnType::Clockwise),
    ensures
        e == a,
{
    let n = SIZE as int;
    assert forall|r: int, col: int| 0 <= r < SIZE && 0 <= col < SIZE implies e.tile(r, col) == a.tile(r, col) by {
        let p1 = rot_src(n, TurnType::Clockwise, r, col);
        let p2 = rot_src(n, TurnType::Clockwise, p1.0, p1.1);
        let p3 = rot_src(n, TurnType::Clockwise, p2.0, p2.1);
        let p4 = rot_src(n, TurnType::Clockwise, p3.0, p3.1);
        assert(e.tile(r, col) == d.tile(p1.0, p1.1));
        assert(d.tile(p1.0, p1.1) == c.tile(p2.0, p2.1));
        assert(c.tile(p2.0, p2.1) == b.tile(p3.0, p3.1));
        assert(b.tile(p3.0, p3.1) == a.tile(p4.0, p4.1));
    }
    Face::lemma_tiles_determine(e, a);
}

} // verus!
