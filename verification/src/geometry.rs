//! The cube in space: where each tile sits, and how a turn moves the tiles of
//! one layer as a rigid rotation about the turned face's axis.
//!
//! Coordinates are doubled so that tile centres are integers: x grows to the
//! right, y upwards and z towards the back; the faces lie in the planes at
//! distance `SIZE` from the centre, and the tile at index `i` along a line of
//! `SIZE` tiles sits at `2 * i - (SIZE - 1)`.
use vstd::prelude::*;

use crate::face::FaceType;
use crate::model::{turn_src, valid_pos};
use crate::turn::{Turn, TurnType};

verus! {

/// The doubled, centred coordinate of index `i` along a line of `n` tiles.
pub open spec fn centred(n: int, i: int) -> int {
    2 * i - (n - 1)
}

/// Where the tile at row `r`, column `c` of face number `k` sits in space.
/// The top is seen from above with the back edge at row 0; the bottom from
/// below with the front edge at row 0; the four sides from outside with the top
/// edge at row 0; column 0 is on the viewer's left.
pub open spec fn tile_point<const SIZE: usize>(k: int, r: int, c: int) -> (int, int, int) {
    let n = SIZE as int;
    if k == 0 {
        (centred(n, c), n, -centred(n, r))
    } else if k == 1 {
        (centred(n, c), -n, centred(n, r))
    } else if k == 2 {
        (centred(n, c), -centred(n, r), -n)
    } else if k == 3 {
        (-centred(n, c), -centred(n, r), n)
    } else if k == 4 {
        (-n, -centred(n, r), -centred(n, c))
    } else {
        (n, -centred(n, r), centred(n, c))
    }
}

/// A quarter turn of space about the outward axis of face `f`, clockwise as
/// seen from outside that face.
pub open spec fn quarter<const SIZE: usize>(f: FaceType<SIZE>, p: (int, int, int)) -> (int, int, int) {
    let (x, y, z) = p;
    match f {
        FaceType::Top => (z, y, -x),
        FaceType::Bottom => (-z, y, x),
        FaceType::Front => (y, -x, z),
        FaceType::Back => (-y, x, z),
        FaceType::Left => (x, z, -y),
        FaceType::Right => (x, -z, y),
    }
}

/// The rotation of space that the turn `t` makes: one quarter turn for a
/// clockwise turn, two for a half turn, three for a counterclockwise turn.
pub open spec fn rotation<const SIZE: usize>(t: Turn<SIZE>, p: (int, int, int)) -> (int, int, int) {
    let f = t.face_type;
    match t.turn_type {
        TurnType::Clockwise => quarter(f, p),
        TurnType::Half => quarter(f, quarter(f, p)),
        TurnType::CounterClockwise => quarter(f, quarter(f, quarter(f, p))),
    }
}

/// The point lies in the outermost layer of tiles next to face `f`: the
/// face's own tiles and the first row of tiles round it.
pub open spec fn in_layer<const SIZE: usize>(f: FaceType<SIZE>, p: (int, int, int)) -> bool {
    let n = SIZE as int;
    let (x, y, z) = p;
    match f {
        FaceType::Top => y >= n - 1,
        FaceType::Bottom => y <= -(n - 1),
        FaceType::Front => z <= -(n - 1),
        FaceType::Back => z >= n - 1,
        FaceType::Left => x <= -(n - 1),
        FaceType::Right => x >= n - 1,
    }
}

/// A turn is a rigid rotation of one layer: every tile in the layer next to
/// the turned face lands where the turn's rotation takes the point it came
/// from, and every other tile stays where it is.
pub proof fn law_turn_is_rotation<const SIZE: usize>(t: Turn<SIZE>, k: int, r: int, c: int)
    requires
        SIZE > 0,
        valid_pos::<SIZE>(k, r, c),
    ensures
        ({
            let p = turn_src(t, k, r, c);
            if in_layer(t.face_type, tile_point::<SIZE>(k, r, c)) {
                rotation(t, tile_point::<SIZE>(p.0, p.1, p.2)) == tile_point::<SIZE>(k, r, c)
            } else {
                p == (k, r, c)
            }
        }),
{
    match t.face_type {
        FaceType::Top => {},
        FaceType::Bottom => {},
        FaceType::Front => {},
        FaceType::Back => {},
        FaceType::Left => {},
        FaceType::Right => {},
    }
}

} // verus!
