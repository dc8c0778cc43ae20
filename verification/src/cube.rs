use vstd::prelude::*;

use crate::balance::{balanced, law_solved_is_balanced, law_turn_keeps_balance, law_turn_unsolves};
use crate::face::{face_index, face_of, face_uniform, reverse_line, Colour, Face, FaceType};
use crate::model::{
    along, cycle_src, lemma_src_valid, edge_point, lemma_edge_point_slot, lemma_edges_shape, lemma_slot_edge_point,
    face_single_colour, shift, single_colour_faces, slot_after, slot_of, solved_view, apply_turns, turn_src, turn_view, valid_pos, view_solved, wf_view,
};
use crate::random::{pick, seeded_rng, thread_rng, ScrambleRng};
use crate::turn::{Turn, TurnType};

verus! {

broadcast use vstd::array::group_array_axioms;

/// Controls how the random number generator is seeded during a scramble.
#[derive(Clone, Copy, Debug)]
pub enum ScrambleType {
    /// Uses a non-deterministic random source.
    Random,
    /// Uses a fixed seed, producing the same scramble every time.
    Seeded(u64),
}

/// A Rubik's cube as an array of six faces, indexed by face number.
#[derive(PartialEq, Clone, Debug)]
pub struct Cube<const SIZE: usize> {
    faces: [Face<SIZE>; 6],
}

/// The number of a face type, as an index into the cube's faces.
fn face_number<const SIZE: usize>(face_type: FaceType<SIZE>) -> (k: usize)
    ensures
        k == face_index(face_type),
{
    match face_type {
        FaceType::Top => 0,
        FaceType::Bottom => 1,
        FaceType::Front => 2,
        FaceType::Back => 3,
        FaceType::Left => 4,
        FaceType::Right => 5,
    }
}

impl<const SIZE: usize> View for Cube<SIZE> {
    type V = Seq<Seq<Seq<Colour>>>;

    /// The cube as six faces, each a grid of rows of colours.
    open spec fn view(&self) -> Seq<Seq<Seq<Colour>>> {
        Seq::new(6, |k: int| Seq::new(SIZE as nat, |r: int| Seq::new(SIZE as nat, |c: int| self.tile(k, r, c))))
    }
}

impl<const SIZE: usize> Default for Cube<SIZE> {
    /// Creates a new solved cube with each face set to its own colour.
    fn default() -> (cube: Self)
        ensures
            cube@ == solved_view::<SIZE>(),
            SIZE > 0 ==> balanced::<SIZE>(cube@),
    {
        Cube::new()
    }
}

impl<const SIZE: usize> Cube<SIZE> {
    /// Creates a new solved cube with each face set to its own colour.
    pub fn new() -> (cube: Self)
        ensures
            cube@ == solved_view::<SIZE>(),
            SIZE > 0 ==> balanced::<SIZE>(cube@),
    {
        proof {
            if SIZE > 0 {
                law_solved_is_balanced::<SIZE>();
            }
        }
        let cube = Cube {
            faces: [
                Face::new(FaceType::Top::<SIZE>.get_solved_colour()),
                Face::new(FaceType::Bottom::<SIZE>.get_solved_colour()),
                Face::new(FaceType::Front::<SIZE>.get_solved_colour()),
                Face::new(FaceType::Back::<SIZE>.get_solved_colour()),
                Face::new(FaceType::Left::<SIZE>.get_solved_colour()),
                Face::new(FaceType::Right::<SIZE>.get_solved_colour()),
            ],
        };
        assert(cube@ =~~= solved_view::<SIZE>());
        cube
    }

    /// Returns true if all faces are solved, i.e. each face is a single colour.
    pub fn is_solved(&self) -> (solved: bool)
        requires
            SIZE > 0,
        ensures
            solved == self.spec_is_solved(),
            solved == view_solved::<SIZE>(self@),
    {
        proof {
            self.lemma_solved_view();
        }
        let mut k: usize = 0;
        while k < 6
            invariant
                k <= 6,
                SIZE > 0,
                forall|j: int| 0 <= j < k ==> #[trigger] face_uniform(self.face(j)),
            decreases 6 - k,
        {
            if !self.faces[k].is_solved() {
                assert(!face_uniform(self.face(k as int)));
                proof {
                    self.lemma_solved_view();
                }
                return false;
            }
            k += 1;
        }
        true
    }

    /// Returns the number of solved faces on this cube.
    pub fn count_solved_faces(&self) -> (count: usize)
        requires
            SIZE > 0,
        ensures
            count == self.solved_faces_below(6),
            count == single_colour_faces::<SIZE>(self@, 6),
            count <= 6,
            self.spec_is_solved() ==> count == 6,
    {
        let mut count: usize = 0;
        let mut k: usize = 0;
        while k < 6
            invariant
                k <= 6,
                SIZE > 0,
                count == self.solved_faces_below(k as int),
                count <= k,
                (forall|j: int| 0 <= j < 6 ==> #[trigger] face_uniform(self.face(j))) ==> count == k,
            decreases 6 - k,
        {
            if self.faces[k].is_solved() {
                count += 1;
            }
            k += 1;
        }
        proof {
            self.lemma_solved_faces_count(6);
        }
        count
    }

    /// The faces counted as solved are those whose view is a single colour.
    pub proof fn lemma_solved_faces_count(self, m: int)
        requires
            m <= 6,
        ensures
            self.solved_faces_below(m) == single_colour_faces::<SIZE>(self@, m),
        decreases m,
    {
        if m > 0 {
            self.lemma_solved_faces_count(m - 1);
            let k = m - 1;
            if face_uniform(self.face(k)) {
                assert forall|r: int, c: int| 0 <= r < SIZE && 0 <= c < SIZE implies #[trigger] self@[k][r][c] == self@[k][0][0] by {
                    assert(self.face(k).tile(r, c) == self.face(k).tile(0, 0));
                    if SIZE > 0 {
                        assert(self@[k][0][0] == self.tile(k, 0, 0));
                    }
                }
            }
            if face_single_colour::<SIZE>(self@, k) {
                assert forall|r: int, c: int| 0 <= r < SIZE && 0 <= c < SIZE implies #[trigger] self.face(k).tile(r, c) == self.face(k).tile(0, 0) by {
                    assert(self@[k][r][c] == self@[k][0][0]);
                }
            }
        }
    }

    /// Two cubes with the same view are the same cube.
    pub proof fn lemma_view_determines(a: Self, b: Self)
        requires
            a@ == b@,
        ensures
            a == b,
    {
        assert forall|k: int, r: int, c: int| valid_pos::<SIZE>(k, r, c) implies #[trigger] a.tile(k, r, c) == b.tile(k, r, c) by {
            assert(a@[k][r][c] == a.tile(k, r, c));
            assert(b@[k][r][c] == b.tile(k, r, c));
            assert(a@[k] == b@[k]);
        }
        Self::lemma_tiles_determine(a, b);
    }

    /// The view of a cube has the shape of a cube.
    pub proof fn lemma_view_wf(self)
        ensures
            wf_view::<SIZE>(self@),
    {
    }

    /// A cube is solved exactly when its view has every face a single colour.
    pub proof fn lemma_solved_view(self)
        ensures
            self.spec_is_solved() == view_solved::<SIZE>(self@),
    {
        if self.spec_is_solved() {
            assert forall|k: int, r: int, c: int| #[trigger] valid_pos::<SIZE>(k, r, c) implies self@[k][r][c] == self@[k][0][0] by {
                assert(face_uniform(self.face(k)));
                assert(self.face(k).tile(r, c) == self.face(k).tile(0, 0));
            }
        }
        if view_solved::<SIZE>(self@) {
            assert forall|k: int| 0 <= k < 6 implies #[trigger] face_uniform(self.face(k)) by {
                assert forall|r: int, c: int| 0 <= r < SIZE && 0 <= c < SIZE implies #[trigger] self.face(k).tile(r, c) == self.face(k).tile(0, 0) by {
                    assert(valid_pos::<SIZE>(k, r, c));
                }
            }
        }
    }

    /// The face with number `k`.
    pub closed spec fn face(self, k: int) -> Face<SIZE> {
        self.faces@[k]
    }

    /// The colour of the tile at row `r`, column `c` of face number `k`.
    pub open spec fn tile(self, k: int, r: int, c: int) -> Colour {
        self.face(k).tile(r, c)
    }

    /// Every face is a single colour.
    pub open spec fn spec_is_solved(self) -> bool {
        forall|k: int| 0 <= k < 6 ==> #[trigger] face_uniform(self.face(k))
    }

    /// How many of the faces numbered below `n` are a single colour.
    pub open spec fn solved_faces_below(self, n: int) -> nat
        decreases n,
    {
        if n <= 0 {
            0
        } else {
            self.solved_faces_below(n - 1) + if face_uniform(self.face(n - 1)) { 1nat } else { 0nat }
        }
    }

    /// Two cubes with the same tiles are the same cube.
    pub proof fn lemma_tiles_determine(a: Self, b: Self)
        requires
            forall|k: int, r: int, c: int| valid_pos::<SIZE>(k, r, c) ==> #[trigger] a.tile(k, r, c) == b.tile(k, r, c),
        ensures
            a == b,
    {
        assert forall|k: int| 0 <= k < 6 implies a.faces@[k] == b.faces@[k] by {
            assert forall|r: int, c: int| 0 <= r < SIZE && 0 <= c < SIZE implies a.faces@[k].tile(r, c) == b.faces@[k].tile(r, c) by {
                assert(valid_pos::<SIZE>(k, r, c));
                assert(a.tile(k, r, c) == b.tile(k, r, c));
            }
            Face::lemma_tiles_determine(a.faces@[k], b.faces@[k]);
        }
        assert(a.faces =~= b.faces);
    }

    /// Returns a reference to the face with the given face type.
    pub fn get_face(&self, face_type: FaceType<SIZE>) -> (face: &Face<SIZE>)
        ensures
            *face == self.face(face_index(face_type)),
    {
        &self.faces[face_number(face_type)]
    }

    /// Returns a mutable reference to the face with the given face type.
    pub fn get_face_mut(&mut self, face_type: FaceType<SIZE>) -> (face: &mut Face<SIZE>)
        ensures
            *face == old(self).face(face_index(face_type)),
            forall|k: int| 0 <= k < 6 ==> #[trigger] final(self).face(k) == if k == face_index(face_type) {
                *final(face)
            } else {
                old(self).face(k)
            },
    {
        &mut self.faces[face_number(face_type)]
    }

    /// Returns a reference to the faces of this cube in face-number order.
    pub fn get_faces(&self) -> (faces: &[Face<SIZE>; 6])
        ensures
            forall|k: int| 0 <= k < 6 ==> #[trigger] faces@[k] == self.face(k),
    {
        &self.faces
    }
}

/// `rotated[i]` is `data[(i + shift) % 4]`: the lines moved `shift` slots to
/// the left.
fn rotate_left4<const SIZE: usize>(data: [[Colour; SIZE]; 4], shift: usize) -> (rotated: [[Colour; SIZE]; 4])
    requires
        shift < 4,
    ensures
        forall|i: int| 0 <= i < 4 ==> #[trigger] rotated@[i] == data@[slot_after(i, shift as int)],
{
    let mut rotated = data;
    let mut i: usize = 0;
    while i < 4
        invariant
            i <= 4,
            shift < 4,
            forall|j: int| 0 <= j < i ==> #[trigger] rotated@[j] == data@[slot_after(j, shift as int)],
        decreases 4 - i,
    {
        let from = if i + shift < 4 { i + shift } else { i + shift - 4 };
        rotated[i] = data[from];
        i += 1;
    }
    rotated
}

impl<const SIZE: usize> Cube<SIZE> {
    /// Applies a single turn to the cube, rotating the face and cycling the
    /// edges of the four faces round it.
    pub fn make_turn(&mut self, turn: Turn<SIZE>)
        requires
            SIZE > 0,
        ensures
            final(self)@ == turn_view(old(self)@, turn),
            balanced::<SIZE>(old(self)@) ==> balanced::<SIZE>(final(self)@),
            forall|k: int, r: int, c: int| #[trigger] valid_pos::<SIZE>(k, r, c) ==> {
                let p = turn_src(turn, k, r, c);
                final(self).tile(k, r, c) == old(self).tile(p.0, p.1, p.2)
            },
    {
        let ghost orig = *self;
        self.get_face_mut(turn.face_type).make_turn(turn.turn_type);
        let ghost mid = *self;
        self.cycle_edges(turn);
        proof {
            let f = turn.face_type;
            lemma_edges_shape(f);
            assert forall|k: int, r: int, c: int| #[trigger] valid_pos::<SIZE>(k, r, c) implies {
                let p = turn_src(turn, k, r, c);
                self.tile(k, r, c) == orig.tile(p.0, p.1, p.2)
            } by {
                if k == face_index(f) {
                    if slot_of(f, k, r, c) < 4 {
                        lemma_slot_edge_point(f, k, r, c);
                    }
                } else {
                    let i = slot_of(f, k, r, c);
                    if i < 4 {
                        lemma_slot_edge_point(f, k, r, c);
                        let q = along(f.spec_edge(i), r, c);
                        lemma_edge_point_slot(f, slot_after(i, shift(turn.turn_type)), q);
                    }
                }
            }
            Self::lemma_turn_view(orig, *self, turn);
            orig.lemma_view_wf();
            if balanced::<SIZE>(orig@) {
                law_turn_keeps_balance(orig@, turn);
            }
        }
    }

    /// A cube whose every tile comes from where `turn` says is the view of the
    /// turned cube.
    proof fn lemma_turn_view(before: Self, after: Self, turn: Turn<SIZE>)
        requires
            SIZE > 0,
            forall|k: int, r: int, c: int| #[trigger] valid_pos::<SIZE>(k, r, c) ==> {
                let p = turn_src(turn, k, r, c);
                after.tile(k, r, c) == before.tile(p.0, p.1, p.2)
            },
        ensures
            after@ == turn_view(before@, turn),
    {
        assert forall|k: int, r: int, c: int| valid_pos::<SIZE>(k, r, c) implies
            #[trigger] after@[k][r][c] == turn_view(before@, turn)[k][r][c] by {
            assert(valid_pos::<SIZE>(k, r, c));
            lemma_src_valid(turn, k, r, c);
        }
        assert(after@ =~~= turn_view(before@, turn));
    }

    /// Cycles the edges of the four faces round the turned face.
    fn cycle_edges(&mut self, turn: Turn<SIZE>)
        requires
            SIZE > 0,
        ensures
            forall|k: int, r: int, c: int| #[trigger] valid_pos::<SIZE>(k, r, c) ==> {
                let p = cycle_src(turn, k, r, c);
                final(self).tile(k, r, c) == old(self).tile(p.0, p.1, p.2)
            },
    {
        let ghost orig = *self;
        let ghost f = turn.face_type;
        proof {
            lemma_edges_shape(f);
        }
        let edges = turn.face_type.get_edges();

        // Read all 4 edges first
        let mut data: [[Colour; SIZE]; 4] = [[Colour::White; SIZE]; 4];
        let mut i: usize = 0;
        while i < 4
            invariant
                i <= 4,
                SIZE > 0,
                *self == orig,
                f == turn.face_type,
                forall|j: int| 0 <= j < 4 ==> #[trigger] edges@[j] == f.spec_edge(j),
                forall|j: int| 0 <= j < 4 ==> (#[trigger] f.spec_edge(j)).index < SIZE,
                forall|j: int, q: int| 0 <= j < i && 0 <= q < SIZE ==> {
                    let p = edge_point(f.spec_edge(j), q);
                    #[trigger] data@[j]@[q] == orig.tile(p.0, p.1, p.2)
                },
            decreases 4 - i,
        {
            let e = &edges[i];
            let mut tiles = if e.is_row {
                self.get_face(e.face).get_row(e.index)
            } else {
                self.get_face(e.face).get_col(e.index)
            };
            if e.reversed {
                reverse_line(&mut tiles);
            }
            data[i] = tiles;
            i += 1;
        }

        // Rotate the data array by the cycle amount
        let shift_by: usize = match turn.turn_type {
            TurnType::Clockwise => 3,  // rotate right by 1 = left by 3
            TurnType::CounterClockwise => 1,
            TurnType::Half => 2,
        };
        assert(shift_by == shift(turn.turn_type));
        let rotated = rotate_left4(data, shift_by);

        // Write back
        let mut i: usize = 0;
        while i < 4
            invariant
                i <= 4,
                SIZE > 0,
                f == turn.face_type,
                forall|j: int| 0 <= j < 4 ==> #[trigger] edges@[j] == f.spec_edge(j),
                forall|j: int| 0 <= j < 4 ==> (#[trigger] f.spec_edge(j)).index < SIZE,
                forall|k: int, r: int, c: int| #[trigger] valid_pos::<SIZE>(k, r, c) ==> {
                    let j = slot_of(f, k, r, c);
                    self.tile(k, r, c) == if j < i {
                        rotated@[j]@[along(f.spec_edge(j), r, c)]
                    } else {
                        orig.tile(k, r, c)
                    }
                },
            decreases 4 - i,
        {
            let ghost prev = *self;
            let e = &edges[i];
            let mut tiles = rotated[i];
            if e.reversed {
                reverse_line(&mut tiles);
            }
            if e.is_row {
                self.get_face_mut(e.face).set_row(e.index, tiles);
            } else {
                self.get_face_mut(e.face).set_col(e.index, tiles);
            }
            proof {
                assert forall|k: int, r: int, c: int| #[trigger] valid_pos::<SIZE>(k, r, c) implies {
                    let j = slot_of(f, k, r, c);
                    self.tile(k, r, c) == if j < i + 1 {
                        rotated@[j]@[along(f.spec_edge(j), r, c)]
                    } else {
                        orig.tile(k, r, c)
                    }
                } by {
                    assert(prev.tile(k, r, c) == prev.face(k).tile(r, c));
                }
            }
            i += 1;
        }
        proof {
            assert forall|k: int, r: int, c: int| #[trigger] valid_pos::<SIZE>(k, r, c) implies {
                let p = cycle_src(turn, k, r, c);
                self.tile(k, r, c) == orig.tile(p.0, p.1, p.2)
            } by {
                let j = slot_of(f, k, r, c);
                if j < 4 {
                    lemma_slot_edge_point(f, k, r, c);
                    let q = along(f.spec_edge(j), r, c);
                    let from = slot_after(j, shift(turn.turn_type));
                    assert(rotated@[j] == data@[from]);
                    assert(data@[from]@[q] == orig.tile(edge_point(f.spec_edge(from), q).0, edge_point(f.spec_edge(from), q).1, edge_point(f.spec_edge(from), q).2));
                }
            }
        }
    }
}

/// Making the turns `ts` and then `t` is making the turns `ts.push(t)`.
proof fn lemma_apply_push<const SIZE: usize>(v: Seq<Seq<Seq<Colour>>>, ts: Seq<Turn<SIZE>>, t: Turn<SIZE>)
    ensures
        apply_turns(v, ts.push(t)) == turn_view(apply_turns(v, ts), t),
    decreases ts.len(),
{
    if ts.len() == 0 {
        assert(ts.push(t).drop_first() =~= Seq::<Turn<SIZE>>::empty());
        assert(ts.push(t)[0] == t);
        assert(apply_turns(turn_view(v, t), Seq::<Turn<SIZE>>::empty()) == turn_view(v, t));
        assert(apply_turns(v, ts) == v);
    } else {
        assert(ts.push(t).drop_first() =~= ts.drop_first().push(t));
        assert(ts.push(t)[0] == ts[0]);
        lemma_apply_push(turn_view(v, ts[0]), ts.drop_first(), t);
    }
}

impl<const SIZE: usize> Cube<SIZE> {
    /// The turn named by a face number below 6 (in the order of `face_of`) and
    /// a turn-type number below 3 (clockwise, counterclockwise, half).
    pub open spec fn drawn_turn(face_draw: int, type_draw: int) -> Turn<SIZE> {
        Turn {
            face_type: face_of(face_draw),
            turn_type: if type_draw == 0 {
                TurnType::Clockwise
            } else if type_draw == 1 {
                TurnType::CounterClockwise
            } else {
                TurnType::Half
            },
        }
    }

    /// Every turn is named by exactly one pair of draws: a face number below 6
    /// and a turn-type number below 3.
    pub proof fn law_draws_name_every_turn_once(t: Turn<SIZE>, a: int, b: int, a2: int, b2: int)
        ensures
            0 <= face_index(t.face_type) < 6 && 0 <= Self::turn_type_number(t.turn_type) < 3
                && Self::drawn_turn(face_index(t.face_type), Self::turn_type_number(t.turn_type)) == t,
            0 <= a < 6 && 0 <= b < 3 && 0 <= a2 < 6 && 0 <= b2 < 3 && Self::drawn_turn(a, b) == Self::drawn_turn(a2, b2)
                ==> a == a2 && b == b2,
    {
    }

    /// The number of a turn type: clockwise 0, counterclockwise 1, half 2.
    pub open spec fn turn_type_number(tt: TurnType) -> int {
        match tt {
            TurnType::Clockwise => 0,
            TurnType::CounterClockwise => 1,
            TurnType::Half => 2,
        }
    }

    /// The turn that a drawn face number and a drawn turn-type number name.
    fn turn_from_draws(face_draw: usize, type_draw: usize) -> (turn: Turn<SIZE>)
        requires
            face_draw < 6,
            type_draw < 3,
        ensures
            turn == Self::drawn_turn(face_draw as int, type_draw as int),
    {
        let face = match face_draw {
            0 => FaceType::Top,
            1 => FaceType::Bottom,
            2 => FaceType::Front,
            3 => FaceType::Back,
            4 => FaceType::Left,
            _ => FaceType::Right,
        };
        let turn_type = match type_draw {
            0 => TurnType::Clockwise,
            1 => TurnType::CounterClockwise,
            _ => TurnType::Half,
        };
        Turn::new(face, turn_type)
    }

    /// Picks a random turn: draws a face number and a turn-type number, and
    /// returns the turn they name together with the two draws.
    fn random_turn(rng: &mut ScrambleRng) -> (drawn: (Turn<SIZE>, usize, usize))
        ensures
            drawn.1 < 6,
            drawn.2 < 3,
            drawn.0 == Self::drawn_turn(drawn.1 as int, drawn.2 as int),
    {
        let faces: [usize; 6] = [0, 1, 2, 3, 4, 5];
        let turn_types: [usize; 3] = [0, 1, 2];
        let face = pick(rng, faces.as_slice());
        let turn_type = pick(rng, turn_types.as_slice());
        let a = face.unwrap();
        let b = turn_type.unwrap();
        (Self::turn_from_draws(a, b), a, b)
    }

    /// Scrambles the cube by applying a number of random turns, and one more
    /// when those turns happen to leave the cube solved.
    /// Use `ScrambleType::Seeded` for a reproducible scramble.
    pub fn scramble(&mut self, moves: usize, scramble_type: ScrambleType)
        requires
            SIZE > 0,
        ensures
            exists|ts: Seq<Turn<SIZE>>|
                #![trigger apply_turns(old(self)@, ts)]
                ts.len() == moves && if view_solved::<SIZE>(apply_turns(old(self)@, ts)) {
                    exists|t: Turn<SIZE>| final(self)@ == #[trigger] turn_view(apply_turns(old(self)@, ts), t)
                } else {
                    final(self)@ == apply_turns(old(self)@, ts)
                },
            balanced::<SIZE>(old(self)@) ==> balanced::<SIZE>(final(self)@),
            SIZE >= 2 && balanced::<SIZE>(old(self)@) ==> !final(self).spec_is_solved(),
    {
        let mut rng = match scramble_type {
            ScrambleType::Seeded(seed) => ScrambleRng::Seeded(seeded_rng(seed)),
            ScrambleType::Random => ScrambleRng::Thread(thread_rng()),
        };
        let ghost orig = self@;
        let ghost mut ts: Seq<Turn<SIZE>> = Seq::empty();
        let mut i: usize = 0;
        while i < moves
            invariant
                SIZE > 0,
                i <= moves,
                ts.len() == i,
                self@ == apply_turns(orig, ts),
                balanced::<SIZE>(orig) ==> balanced::<SIZE>(self@),
            decreases moves - i,
        {
            let (turn, _, _) = Self::random_turn(&mut rng);
            proof {
                lemma_apply_push(orig, ts, turn);
                ts = ts.push(turn);
            }
            self.make_turn(turn);
            i += 1;
        }

        // Make one turn if the turns happened to leave the cube solved
        // (especially likely for short scrambles)
        let ghost before = self@;
        if self.is_solved() {
            let (turn, _, _) = Self::random_turn(&mut rng);
            proof {
                self.lemma_view_wf();
                if SIZE >= 2 && balanced::<SIZE>(orig) {
                    law_turn_unsolves(self@, turn);
                }
            }
            self.make_turn(turn);
            proof {
                self.lemma_solved_view();
                assert(self@ == turn_view(apply_turns(orig, ts), turn));
            }
        }
        assert(before == apply_turns(orig, ts));
    }
}

} // verus!
