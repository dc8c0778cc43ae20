//! The environment in which an agent learns to solve a cube: a cube, the
//! number of steps taken, and a replay buffer of past transitions.
use vstd::prelude::*;

use crate::count::{colour_index, colour_number, colour_of, grid_count, line_count, max_colour_count};
use crate::cube::{Cube, ScrambleType};
use crate::face::{face_index, face_of, Colour, FaceType};
use crate::model::{apply_turns, solved_view, turn_view, view_solved};
use crate::random::{sample_items, taken_without_repeats, thread_rng};
use crate::turn::{Turn, TurnType};
use vstd::arithmetic::div_mod::{lemma_add_mod_noop_right, lemma_mod_bound, lemma_mod_equivalence, lemma_small_mod};

verus! {

/// The size of the cube the environment works on.
pub const ENV_CUBE_SIZE: usize = 2;

/// The number of actions: a turn of one of six faces in one of three ways.
pub const ACTIONS: usize = 18;

/// The number of tiles of the environment's cube.
pub const FACELETS: usize = 24;

/// The length of the one-hot encoding of a cube: six entries per tile.
pub const ENCODING_LEN: usize = 144;

/// The turn that action `action` stands for: `action / 3` picks the face (6 and
/// above pick the right face), `action % 3` the turn type.
pub open spec fn action_turn(action: int) -> Turn<ENV_CUBE_SIZE> {
    let f = action / 3;
    let t = action % 3;
    Turn {
        face_type: face_of(if f < 5 { f } else { 5 }),
        turn_type: if t == 0 {
            TurnType::Clockwise
        } else if t == 1 {
            TurnType::CounterClockwise
        } else {
            TurnType::Half
        },
    }
}

/// The one-hot encoding of a cube: entry `((k * 2 + r) * 2 + c) * 6 + j` is set
/// exactly when the tile at row `r`, column `c` of face `k` has colour `j`.
pub open spec fn encoding(v: Seq<Seq<Seq<Colour>>>) -> Seq<bool> {
    Seq::new(ENCODING_LEN as nat, |i: int| colour_index(v[i / 24][(i % 24) / 12][(i % 12) / 6]) == i % 6)
}

/// The sum, over the faces numbered below `m`, of the count of each face's most
/// common colour.
pub open spec fn correct_facelets_below(v: Seq<Seq<Seq<Colour>>>, m: int) -> nat
    decreases m,
{
    if m <= 0 {
        0
    } else {
        correct_facelets_below(v, m - 1) + max_colour_count(v[m - 1], ENV_CUBE_SIZE as int, 6)
    }
}

/// The score of a cube: for each face, how many tiles have that face's most
/// common colour, summed over the faces.
pub open spec fn correct_facelets(v: Seq<Seq<Seq<Colour>>>) -> nat {
    correct_facelets_below(v, 6)
}

/// The number of tiles of colour `col` on a 2x2 face.
pub open spec fn tiles_of_colour(g: Seq<Seq<Colour>>, col: Colour) -> int {
    (if g[0][0] == col { 1int } else { 0int }) + (if g[0][1] == col { 1int } else { 0int })
        + (if g[1][0] == col { 1int } else { 0int }) + (if g[1][1] == col { 1int } else { 0int })
}

/// On a 2x2 face, the count of a colour over its two rows is the number of
/// its tiles of that colour.
proof fn lemma_grid_count_2x2(g: Seq<Seq<Colour>>, col: Colour)
    ensures
        grid_count(g, col, 2, 2) == tiles_of_colour(g, col),
{
    reveal_with_fuel(grid_count, 3);
    reveal_with_fuel(line_count, 3);
}

/// The largest of the counts of the colours numbered below `j` is at least
/// each of them and, when there is one, equal to one of them.
proof fn lemma_max_colour_count_is_max(g: Seq<Seq<Colour>>, j: int)
    requires
        j >= 0,
    ensures
        forall|i: int| 0 <= i < j ==> #[trigger] grid_count(g, colour_of(i), 2, 2) <= max_colour_count(g, 2, j),
        j > 0 ==> exists|i: int| 0 <= i < j && max_colour_count(g, 2, j) == #[trigger] grid_count(g, colour_of(i), 2, 2),
    decreases j,
{
    if j > 0 {
        lemma_max_colour_count_is_max(g, j - 1);
        if j > 1 {
            let i0 = choose|i: int| 0 <= i < j - 1 && max_colour_count(g, 2, j - 1) == #[trigger] grid_count(g, colour_of(i), 2, 2);
            assert(0 <= i0 < j);
        } else {
            assert(max_colour_count(g, 2, 0) == 0);
        }
        assert(max_colour_count(g, 2, j) == grid_count(g, colour_of(j - 1), 2, 2) || max_colour_count(g, 2, j) == max_colour_count(g, 2, j - 1));
    }
}

/// The score of a 2x2 cube is the sum, over its six faces, of each face's
/// dominant count: a number at least the count of tiles of every colour on the
/// face and equal to the count of tiles of some colour, that is, the number of
/// tiles of the face's most common colour.
pub proof fn law_score_is_dominant_counts(v: Seq<Seq<Seq<Colour>>>)
    ensures
        exists|d: Seq<int>|
            #![trigger d.len()]
            d.len() == 6 && correct_facelets(v) == d[0] + d[1] + d[2] + d[3] + d[4] + d[5]
            && (forall|k: int, col: Colour| 0 <= k < 6 ==> #[trigger] tiles_of_colour(v[k], col) <= d[k])
            && (forall|k: int| #![trigger d[k]] 0 <= k < 6 ==> exists|col: Colour| d[k] == #[trigger] tiles_of_colour(v[k], col)),
{
    let d = Seq::new(6, |k: int| max_colour_count(v[k], 2, 6) as int);
    assert(correct_facelets(v) == d[0] + d[1] + d[2] + d[3] + d[4] + d[5]) by {
        reveal_with_fuel(correct_facelets_below, 7);
    }
    assert forall|k: int, col: Colour| 0 <= k < 6 implies #[trigger] tiles_of_colour(v[k], col) <= d[k] by {
        lemma_max_colour_count_is_max(v[k], 6);
        lemma_grid_count_2x2(v[k], col);
        let i = colour_index(col);
        assert(colour_of(i) == col);
        assert(grid_count(v[k], colour_of(i), 2, 2) <= max_colour_count(v[k], 2, 6));
    }
    assert forall|k: int| #![trigger d[k]] 0 <= k < 6 implies exists|col: Colour| d[k] == #[trigger] tiles_of_colour(v[k], col) by {
        lemma_max_colour_count_is_max(v[k], 6);
        let i = choose|i: int| 0 <= i < 6 && max_colour_count(v[k], 2, 6) == #[trigger] grid_count(v[k], colour_of(i), 2, 2);
        lemma_grid_count_2x2(v[k], colour_of(i));
        assert(d[k] == tiles_of_colour(v[k], colour_of(i)));
    }
    assert(d.len() == 6);
}

/// The encoding holds every tile: entry `((k * 2 + r) * 2 + c) * 6 + j` is set
/// exactly when the tile at row `r`, column `c` of face `k` has the colour
/// numbered `j`.
pub proof fn law_encoding_reads_tiles(v: Seq<Seq<Seq<Colour>>>, k: int, r: int, c: int, j: int)
    requires
        0 <= k < 6,
        0 <= r < 2,
        0 <= c < 2,
        0 <= j < 6,
    ensures
        encoding(v).len() == ENCODING_LEN,
        0 <= ((k * 2 + r) * 2 + c) * 6 + j < ENCODING_LEN,
        encoding(v)[((k * 2 + r) * 2 + c) * 6 + j] == (v[k][r][c] == colour_of(j)),
{
    let i = ((k * 2 + r) * 2 + c) * 6 + j;
    assert(i == k * 24 + r * 12 + c * 6 + j);
    assert(i / 24 == k && (i % 24) / 12 == r && (i % 12) / 6 == c && i % 6 == j);
    assert((colour_index(v[k][r][c]) == j) == (v[k][r][c] == colour_of(j)));
}

/// Two 2x2 cubes with the same encoding are the same cube.
pub proof fn law_encoding_determines_cube(a: Cube<ENV_CUBE_SIZE>, b: Cube<ENV_CUBE_SIZE>)
    requires
        encoding(a@) == encoding(b@),
    ensures
        a == b,
{
    assert forall|k: int, r: int, c: int| 0 <= k < 6 && 0 <= r < 2 && 0 <= c < 2 implies a@[k][r][c] == b@[k][r][c] by {
        let j = colour_index(a@[k][r][c]);
        law_encoding_reads_tiles(a@, k, r, c, j);
        law_encoding_reads_tiles(b@, k, r, c, j);
        assert(colour_of(j) == a@[k][r][c]);
    }
    a.lemma_view_wf();
    b.lemma_view_wf();
    assert forall|k: int| 0 <= k < 6 implies a@[k] == b@[k] by {
        assert forall|r: int| 0 <= r < 2 implies a@[k][r] == b@[k][r] by {
            assert(a@[k][r] =~= b@[k][r]);
        }
        assert(a@[k] =~= b@[k]);
    }
    assert(a@ =~= b@);
    Cube::lemma_view_determines(a, b);
}

/// Generates the one-hot encoding of the given cube, face by face, row by row,
/// column by column, colour by colour.
pub fn encode_cube(cube: &Cube<ENV_CUBE_SIZE>) -> (data: Vec<bool>)
    ensures
        data@ == encoding(cube@),
{
    let mut data: Vec<bool> = Vec::with_capacity(ENCODING_LEN);
    let faces = cube.get_faces();
    let mut k: usize = 0;
    while k < 6
        invariant
            k <= 6,
            forall|j: int| 0 <= j < 6 ==> #[trigger] faces@[j] == cube.face(j),
            data@.len() == k * 24,
            forall|i: int| 0 <= i < data@.len() ==> #[trigger] data@[i] == encoding(cube@)[i],
        decreases 6 - k,
    {
        let mut row: usize = 0;
        while row < ENV_CUBE_SIZE
            invariant
                k < 6,
                row <= 2,
                forall|j: int| 0 <= j < 6 ==> #[trigger] faces@[j] == cube.face(j),
                data@.len() == k * 24 + row * 12,
                forall|i: int| 0 <= i < data@.len() ==> #[trigger] data@[i] == encoding(cube@)[i],
            decreases 2 - row,
        {
            let mut col: usize = 0;
            while col < ENV_CUBE_SIZE
                invariant
                    k < 6,
                    row < 2,
                    col <= 2,
                    forall|j: int| 0 <= j < 6 ==> #[trigger] faces@[j] == cube.face(j),
                    data@.len() == k * 24 + row * 12 + col * 6,
                    forall|i: int| 0 <= i < data@.len() ==> #[trigger] data@[i] == encoding(cube@)[i],
                decreases 2 - col,
            {
                let colour_idx = colour_number(faces[k].get_tile_colour(row, col));
                let mut c: usize = 0;
                while c < 6
                    invariant
                        k < 6,
                        row < 2,
                        col < 2,
                        c <= 6,
                        colour_idx == colour_index(cube.tile(k as int, row as int, col as int)),
                        data@.len() == k * 24 + row * 12 + col * 6 + c,
                        forall|i: int| 0 <= i < data@.len() ==> #[trigger] data@[i] == encoding(cube@)[i],
                    decreases 6 - c,
                {
                    let ghost idx = data@.len() as int;
                    assert(idx / 24 == k && (idx % 24) / 12 == row && (idx % 12) / 6 == col && idx % 6 == c);
                    data.push(c == colour_idx);
                    c += 1;
                }
                col += 1;
            }
            row += 1;
        }
        k += 1;
    }
    assert(data@ =~= encoding(cube@));
    data
}

/// Counts, for each face, the tiles of that face's most common colour, and sums
/// the counts. A colour may be counted on more than one face.
pub fn count_correct_facelets(cube: &Cube<ENV_CUBE_SIZE>) -> (correct: usize)
    ensures
        correct == correct_facelets(cube@),
        correct <= FACELETS,
{
    let faces = [
        FaceType::Top,
        FaceType::Bottom,
        FaceType::Front,
        FaceType::Back,
        FaceType::Left,
        FaceType::Right,
    ];
    let mut total: usize = 0;
    let mut k: usize = 0;
    while k < 6
        invariant
            k <= 6,
            forall|j: int| 0 <= j < 6 ==> face_index(#[trigger] faces@[j]) == j,
            total == correct_facelets_below(cube@, k as int),
            total <= k * 4,
        decreases 6 - k,
    {
        // Score the dominant tile colour on each face
        let face = cube.get_face(faces[k]);
        let ghost grid = cube@[k as int];
        let mut colour_counts: [usize; 6] = [0; 6];
        let mut i: usize = 0;
        while i < 6
            invariant
                i <= 6,
                forall|j: int| 0 <= j < i ==> #[trigger] colour_counts@[j] == 0,
            decreases 6 - i,
        {
            colour_counts[i] = 0;
            i += 1;
        }
        let mut r: usize = 0;
        while r < ENV_CUBE_SIZE
            invariant
                k < 6,
                r <= 2,
                *face == cube.face(k as int),
                grid == cube@[k as int],
                forall|j: int| 0 <= j < 6 ==> #[trigger] colour_counts@[j] == grid_count(grid, colour_of(j), r as int, 2),
                forall|j: int| 0 <= j < 6 ==> #[trigger] colour_counts@[j] <= r * 2,
            decreases 2 - r,
        {
            let mut c: usize = 0;
            while c < ENV_CUBE_SIZE
                invariant
                    k < 6,
                    r < 2,
                    c <= 2,
                    *face == cube.face(k as int),
                    grid == cube@[k as int],
                    forall|j: int| 0 <= j < 6 ==> #[trigger] colour_counts@[j]
                        == grid_count(grid, colour_of(j), r as int, 2) + line_count(grid[r as int], colour_of(j), c as int),
                    forall|j: int| 0 <= j < 6 ==> #[trigger] colour_counts@[j] <= r * 2 + c,
                decreases 2 - c,
            {
                let idx = colour_number(face.get_tile_colour(r, c));
                colour_counts[idx] = colour_counts[idx] + 1;
                c += 1;
            }
            assert forall|j: int| 0 <= j < 6 implies #[trigger] colour_counts@[j] == grid_count(grid, colour_of(j), r + 1, 2) by {
                assert(grid_count(grid, colour_of(j), r + 1, 2) == grid_count(grid, colour_of(j), r as int, 2) + line_count(grid[r as int], colour_of(j), 2));
            }
            r += 1;
        }
        let mut best: usize = 0;
        let mut j: usize = 0;
        while j < 6
            invariant
                j <= 6,
                forall|x: int| 0 <= x < 6 ==> #[trigger] colour_counts@[x] == grid_count(grid, colour_of(x), 2, 2),
                forall|x: int| 0 <= x < 6 ==> #[trigger] colour_counts@[x] <= 4,
                best == max_colour_count(grid, 2, j as int),
                best <= 4,
            decreases 6 - j,
        {
            if colour_counts[j] > best {
                best = colour_counts[j];
            }
            j += 1;
        }
        total = total + best;
        k += 1;
    }
    total
}

/// A cube environment: the cube, the number of steps taken since the last
/// reset, and the number of steps after which an episode is cut short.
pub struct CubeEnv {
    cube: Cube<ENV_CUBE_SIZE>,
    max_steps: usize,
    steps: usize,
}

/// What a step of the environment gives back: the encoding of the new state,
/// the score of the new cube, whether it is solved, and whether the episode
/// ran out of steps without being solved.
pub struct StepStatus {
    pub next_state: Vec<bool>,
    pub correct_facelets: usize,
    pub terminated: bool,
    pub truncated: bool,
}

impl CubeEnv {
    /// The environment's cube.
    pub closed spec fn cube(self) -> Cube<ENV_CUBE_SIZE> {
        self.cube
    }

    /// The number of steps taken since the last reset.
    pub closed spec fn steps(self) -> usize {
        self.steps
    }

    /// The number of steps after which an unsolved episode is cut short.
    pub closed spec fn max_steps(self) -> usize {
        self.max_steps
    }

    /// Initializes a new environment with a solved cube.
    pub fn new() -> (env: Self)
        ensures
            env.cube()@ == solved_view::<ENV_CUBE_SIZE>(),
            env.steps() == 0,
            env.max_steps() == 0,
    {
        CubeEnv { cube: Cube::default(), max_steps: 0, steps: 0 }
    }

    /// Performs a seeded scramble on a new cube and returns the encoding of the
    /// state.
    pub fn seeded_reset(&mut self, moves: usize, max_steps: usize, seed: u64) -> (state: Vec<bool>)
        ensures
            exists|ts: Seq<Turn<ENV_CUBE_SIZE>>|
                #![trigger apply_turns(solved_view::<ENV_CUBE_SIZE>(), ts)]
                ts.len() == moves && if view_solved::<ENV_CUBE_SIZE>(apply_turns(solved_view::<ENV_CUBE_SIZE>(), ts)) {
                    exists|t: Turn<ENV_CUBE_SIZE>| final(self).cube()@
                        == #[trigger] turn_view(apply_turns(solved_view::<ENV_CUBE_SIZE>(), ts), t)
                } else {
                    final(self).cube()@ == apply_turns(solved_view::<ENV_CUBE_SIZE>(), ts)
                },
            !view_solved::<ENV_CUBE_SIZE>(final(self).cube()@),
            final(self).steps() == 0,
            final(self).max_steps() == max_steps,
            state@ == encoding(final(self).cube()@),
    {
        self.cube = Cube::default();
        self.cube.scramble(moves, ScrambleType::Seeded(seed));
        proof {
            self.cube.lemma_solved_view();
        }
        self.steps = 0;
        self.max_steps = max_steps;
        encode_cube(&self.cube)
    }

    /// Scrambles a new cube at random and returns the encoding of the state.
    pub fn reset(&mut self, moves: usize, max_steps: usize) -> (state: Vec<bool>)
        ensures
            exists|ts: Seq<Turn<ENV_CUBE_SIZE>>|
                #![trigger apply_turns(solved_view::<ENV_CUBE_SIZE>(), ts)]
                ts.len() == moves && if view_solved::<ENV_CUBE_SIZE>(apply_turns(solved_view::<ENV_CUBE_SIZE>(), ts)) {
                    exists|t: Turn<ENV_CUBE_SIZE>| final(self).cube()@
                        == #[trigger] turn_view(apply_turns(solved_view::<ENV_CUBE_SIZE>(), ts), t)
                } else {
                    final(self).cube()@ == apply_turns(solved_view::<ENV_CUBE_SIZE>(), ts)
                },
            !view_solved::<ENV_CUBE_SIZE>(final(self).cube()@),
            final(self).steps() == 0,
            final(self).max_steps() == max_steps,
            state@ == encoding(final(self).cube()@),
    {
        self.cube = Cube::default();
        self.cube.scramble(moves, ScrambleType::Random);
        proof {
            self.cube.lemma_solved_view();
        }
        self.steps = 0;
        self.max_steps = max_steps;
        encode_cube(&self.cube)
    }

    /// Applies the turn of an action; a solved cube ends the episode, and an
    /// unsolved one is cut short once the step limit is reached.
    pub fn step(&mut self, action: usize) -> (status: StepStatus)
        requires
            old(self).steps() < usize::MAX,
        ensures
            final(self).cube()@ == turn_view(old(self).cube()@, action_turn(action as int)),
            final(self).steps() == old(self).steps() + 1,
            final(self).max_steps() == old(self).max_steps(),
            status.terminated == view_solved::<ENV_CUBE_SIZE>(final(self).cube()@),
            status.truncated == (!status.terminated && final(self).steps() >= final(self).max_steps()),
            status.next_state@ == encoding(final(self).cube()@),
            status.correct_facelets == correct_facelets(final(self).cube()@),
    {
        let turn = CubeEnv::map_action(action);
        self.cube.make_turn(turn);
        self.steps += 1;
        let terminated = self.cube.is_solved();
        StepStatus {
            next_state: encode_cube(&self.cube),
            correct_facelets: count_correct_facelets(&self.cube),
            terminated,
            truncated: !terminated && self.steps >= self.max_steps,
        }
    }

    /// Maps an action to a turn that can be applied to the cube.
    pub fn map_action(action: usize) -> (turn: Turn<ENV_CUBE_SIZE>)
        ensures
            turn == action_turn(action as int),
    {
        // Three turn types for each of the six faces
        let ft = match action / 3 {
            0 => FaceType::Top,
            1 => FaceType::Bottom,
            2 => FaceType::Front,
            3 => FaceType::Back,
            4 => FaceType::Left,
            _ => FaceType::Right,
        };
        let tt = match action % 3 {
            0 => TurnType::Clockwise,
            1 => TurnType::CounterClockwise,
            _ => TurnType::Half,
        };
        Turn::new(ft, tt)
    }

    /// The number of steps taken since the last reset.
    pub fn get_steps(&self) -> (steps: usize)
        ensures
            steps == self.steps(),
    {
        self.steps
    }

    /// The environment's cube.
    pub fn get_cube(&self) -> (cube: &Cube<ENV_CUBE_SIZE>)
        ensures
            *cube == self.cube(),
    {
        &self.cube
    }
}

/// What a push of `t` does to a buffer of capacity `cap` that holds `held` and
/// writes next at slot `next`: while not full it appends, once full it
/// overwrites the slot `next`; the next slot moves one on, round to 0.
pub open spec fn push_step<T>(cap: int, held: Seq<T>, next: int, t: T) -> (Seq<T>, int) {
    (if held.len() < cap { held.push(t) } else { held.update(next, t) }, (next + 1) % cap)
}

/// What an empty buffer of capacity `cap` holds, and where it writes next,
/// after the pushes of `ts`, in order.
pub open spec fn after_pushes<T>(cap: int, ts: Seq<T>) -> (Seq<T>, int)
    decreases ts.len(),
{
    if ts.len() == 0 {
        (Seq::empty(), 0)
    } else {
        let before = after_pushes(cap, ts.drop_last());
        push_step(cap, before.0, before.1, ts.last())
    }
}

/// An empty buffer of capacity `cap > 0` that takes the pushes of `ts` holds
/// exactly the last `min(ts.len(), cap)` of them: the push numbered `j` among
/// those sits in slot `j % cap`; the next push goes to slot `ts.len() % cap`.
pub proof fn law_buffer_keeps_latest<T>(cap: int, ts: Seq<T>)
    requires
        cap > 0,
    ensures
        ({
            let (held, next) = after_pushes(cap, ts);
            let n = ts.len() as int;
            &&& held.len() == if n < cap { n } else { cap }
            &&& next == n % cap
            &&& forall|j: int| n - held.len() <= j < n ==> #[trigger] held[j % cap] == ts[j]
        }),
    decreases ts.len(),
{
    let n = ts.len() as int;
    if n > 0 {
        let m = n - 1;
        let prev = ts.drop_last();
        law_buffer_keeps_latest(cap, prev);
        let (held0, next0) = after_pushes(cap, prev);
        let (held, next) = after_pushes(cap, ts);
        assert(next == (next0 + 1) % cap);
        lemma_add_mod_noop_right(1, m, cap);
        assert(next == n % cap);
        if held0.len() < cap {
            assert forall|j: int| n - held.len() <= j < n implies #[trigger] held[j % cap] == ts[j] by {
                lemma_small_mod(j as nat, cap as nat);
            }
        } else {
            assert forall|j: int| n - held.len() <= j < n implies #[trigger] held[j % cap] == ts[j] by {
                lemma_mod_bound(j, cap);
                if j < m {
                    lemma_mod_equivalence(m, j, cap);
                    lemma_small_mod((m - j) as nat, cap as nat);
                    assert(prev[j] == ts[j]);
                }
            }
        }
    }
}

/// A buffer of the most recent transitions, at most `capacity` of them; once
/// full, each new transition overwrites the oldest one.
pub struct ReplayBuffer<T> {
    capacity: usize,
    insertions: usize,
    transitions: Vec<T>,
}

impl<T> ReplayBuffer<T> {
    /// The buffer holds at most `capacity` transitions, and `insertions` is
    /// where the next one goes: the end while the buffer is not full, the
    /// oldest one once it is.
    pub closed spec fn wf(self) -> bool {
        &&& self.transitions@.len() <= self.capacity
        &&& self.capacity > 0 ==> self.insertions < self.capacity
        &&& self.capacity == 0 ==> self.insertions == 0
        &&& self.transitions@.len() < self.capacity ==> self.insertions == self.transitions@.len()
    }

    /// The most transitions the buffer holds.
    pub closed spec fn capacity(self) -> usize {
        self.capacity
    }

    /// Where the next transition goes.
    pub closed spec fn next_slot(self) -> usize {
        self.insertions
    }

    /// The transitions held, in slot order.
    pub closed spec fn transitions(self) -> Seq<T> {
        self.transitions@
    }

    /// Creates an empty buffer that holds at most `capacity` transitions.
    pub fn new(capacity: usize) -> (buffer: Self)
        ensures
            buffer.wf(),
            buffer.capacity() == capacity,
            buffer.next_slot() == 0,
            buffer.transitions() == Seq::<T>::empty(),
    {
        ReplayBuffer { capacity, insertions: 0, transitions: Vec::with_capacity(capacity) }
    }

    /// Adds a transition; once the buffer is full it overwrites the oldest one.
    pub fn push(&mut self, transition: T)
        requires
            old(self).wf(),
            old(self).capacity() > 0,
        ensures
            final(self).wf(),
            final(self).capacity() == old(self).capacity(),
            final(self).transitions() == if old(self).transitions().len() < old(self).capacity() {
                old(self).transitions().push(transition)
            } else {
                old(self).transitions().update(old(self).next_slot() as int, transition)
            },
            final(self).next_slot() == (old(self).next_slot() + 1) % (old(self).capacity() as int),
            (final(self).transitions(), final(self).next_slot() as int) == push_step(
                old(self).capacity() as int,
                old(self).transitions(),
                old(self).next_slot() as int,
                transition,
            ),
    {
        if self.transitions.len() < self.capacity {
            self.transitions.push(transition);
        } else {
            // Overwrite the oldest transition when the buffer is full
            self.transitions.set(self.insertions, transition);
        }
        self.insertions += 1;
        proof {
            let x = self.insertions as int;
            let cap = self.capacity as int;
            assert(x < cap ==> x % cap == x) by (nonlinear_arith)
                requires
                    0 < x <= cap,
            ;
            assert(x == cap ==> x % cap == 0) by (nonlinear_arith)
                requires
                    0 < x <= cap,
            ;
        }
        self.insertions %= self.capacity;
    }

    /// Picks `batch_size` distinct transitions at random (all of them when
    /// there are fewer).
    pub fn sample(&self, batch_size: usize) -> (batch: Vec<&T>)
        ensures
            batch@.len() == if batch_size < self.transitions().len() {
                batch_size as int
            } else {
                self.transitions().len() as int
            },
            taken_without_repeats(batch@.map_values(|x: &T| *x), self.transitions()),
    {
        let mut rng = thread_rng();
        sample_items(self.transitions.as_slice(), &mut rng, batch_size)
    }

    /// The number of transitions held.
    pub fn len(&self) -> (len: usize)
        ensures
            len == self.transitions().len(),
            self.wf() ==> len <= self.capacity(),
    {
        self.transitions.len()
    }

    /// Removes every transition.
    pub fn clear(&mut self)
        ensures
            final(self).wf(),
            final(self).capacity() == old(self).capacity(),
            final(self).transitions() == Seq::<T>::empty(),
            final(self).next_slot() == 0,
    {
        self.transitions.clear();
        self.insertions = 0;
    }
}

} // verus!
