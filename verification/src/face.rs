use vstd::prelude::*;

use crate::turn::TurnType;

verus! {

broadcast use vstd::array::group_array_axioms;

/// The size of the standard cube, i.e. a standard Rubik's cube is 3x3.
pub const CUBE_SIZE: usize = 3;

/// The colour of a tile.
/// Each variant corresponds to one of the six faces in the solved state.
#[derive(PartialEq, Eq, Structural, Hash, Debug, Clone, Copy)]
pub enum Colour {
    White,
    Red,
    Green,
    Blue,
    Orange,
    Yellow,
}

/// The orientation of a face on the cube.
#[derive(PartialEq, Debug, Clone, Copy)]
pub enum FaceType<const SIZE: usize> {
    Top,
    Bottom,
    Front,
    Back,
    Left,
    Right,
}

/// An edge of a face that takes part in the edge cycle when a face is turned.
#[derive(Clone, Debug)]
pub struct EdgeRef<const SIZE: usize> {
    /// The face this edge belongs to.
    pub face: FaceType<SIZE>,
    /// The row or column index of the edge on the face.
    pub index: usize,
    /// If `true`, the edge is a row; if `false`, it is a column.
    pub is_row: bool,
    /// If `true`, the edge tiles are reversed before cycling.
    pub reversed: bool,
}

/// A single face of the cube as a square grid of tiles.
#[derive(PartialEq, Eq, Hash, Debug, Clone, Copy)]
pub struct Face<const SIZE: usize> {
    tiles: [[Colour; SIZE]; SIZE],
}

/// Where the tile at `(r, c)` of an `n`-sized face comes from when the face is
/// rotated by `tt`.
pub open spec fn rot_src(n: int, tt: TurnType, r: int, c: int) -> (int, int) {
    match tt {
        TurnType::Clockwise => (n - 1 - c, r),
        TurnType::CounterClockwise => (c, n - 1 - r),
        TurnType::Half => (n - 1 - r, n - 1 - c),
    }
}

/// `after` is `before` with its tiles rotated by `tt`: the tile at `(r, c)` of
/// `after` is the tile of `before` at the position that `rot_src` names.
pub open spec fn face_turned<const SIZE: usize>(before: Face<SIZE>, after: Face<SIZE>, tt: TurnType) -> bool {
    forall|r: int, c: int| 0 <= r < SIZE && 0 <= c < SIZE ==>
        #[trigger] after.tile(r, c) == before.tile(rot_src(SIZE as int, tt, r, c).0, rot_src(SIZE as int, tt, r, c).1)
}

/// Every tile of `face` has the same colour.
pub open spec fn face_uniform<const SIZE: usize>(face: Face<SIZE>) -> bool {
    forall|r: int, c: int| 0 <= r < SIZE && 0 <= c < SIZE ==> #[trigger] face.tile(r, c) == face.tile(0, 0)
}

impl<const SIZE: usize> Face<SIZE> {
    /// The colour of the tile at row `r` and column `c`.
    pub closed spec fn tile(self, r: int, c: int) -> Colour {
        self.tiles@[r]@[c]
    }

    /// Two faces with the same tiles are the same face.
    pub proof fn lemma_tiles_determine(a: Self, b: Self)
        requires
            forall|r: int, c: int| 0 <= r < SIZE && 0 <= c < SIZE ==> a.tile(r, c) == b.tile(r, c),
        ensures
            a == b,
    {
        assert forall|r: int| 0 <= r < SIZE implies a.tiles@[r] == b.tiles@[r] by {
            assert forall|c: int| 0 <= c < SIZE implies a.tiles@[r]@[c] == b.tiles@[r]@[c] by {
                assert(a.tile(r, c) == b.tile(r, c));
            }
            assert(a.tiles@[r]@ =~= b.tiles@[r]@);
            assert(a.tiles@[r] =~= b.tiles@[r]);
        }
        assert(a.tiles =~= b.tiles);
    }

    /// Creates a new face with all tiles set to the given colour.
    pub fn new(colour: Colour) -> (face: Self)
        ensures
            forall|r: int, c: int| 0 <= r < SIZE && 0 <= c < SIZE ==> #[trigger] face.tile(r, c) == colour,
    {
        let mut row = [colour; SIZE];
        let mut i: usize = 0;
        while i < SIZE
            invariant
                i <= SIZE,
                forall|c: int| 0 <= c < i ==> #[trigger] row@[c] == colour,
            decreases SIZE - i,
        {
            row[i] = colour;
            i += 1;
        }
        let mut tiles = [row; SIZE];
        let mut i: usize = 0;
        while i < SIZE
            invariant
                i <= SIZE,
                forall|r: int| 0 <= r < i ==> #[trigger] tiles@[r] == row,
            decreases SIZE - i,
        {
            tiles[i] = row;
            i += 1;
        }
        Face { tiles }
    }

    /// Rotates the tiles within this face according to the given turn type.
    /// Only the face's own tiles move; the edges of adjacent faces are cycled
    /// by the cube.
    pub fn make_turn(&mut self, turn: TurnType)
        ensures
            face_turned(*old(self), *final(self), turn),
    {
        match turn {
            TurnType::Clockwise => self.rotate_clockwise(),
            TurnType::CounterClockwise => self.rotate_counterclockwise(),
            TurnType::Half => {
                self.rotate_clockwise();
                self.rotate_clockwise();
            },
        }
    }

    /// Reverses the order of the rows.
    fn reverse_rows(&mut self)
        ensures
            forall|r: int, c: int| 0 <= r < SIZE && 0 <= c < SIZE ==>
                #[trigger] final(self).tile(r, c) == old(self).tile(SIZE - 1 - r, c),
    {
        let ghost orig = *self;
        let half = SIZE / 2;
        let mut k: usize = 0;
        while k < half
            invariant
                half == SIZE / 2,
                k <= half,
                forall|a: int, b: int| 0 <= a < SIZE && 0 <= b < SIZE ==>
                    #[trigger] self.tile(a, b) == if a < k || a > SIZE - 1 - k {
                        orig.tile(SIZE - 1 - a, b)
                    } else {
                        orig.tile(a, b)
                    },
            decreases half - k,
        {
            let ghost prev = *self;
            let other = SIZE - 1 - k;
            let temp = self.tiles[k];
            self.tiles[k] = self.tiles[other];
            self.tiles[other] = temp;
            assert forall|a: int, b: int| 0 <= a < SIZE && 0 <= b < SIZE implies #[trigger] self.tile(a, b)
                == if a == k { prev.tile(other as int, b) } else if a == other { prev.tile(k as int, b) } else { prev.tile(a, b) } by {}
            k += 1;
        }
    }

    /// Transposes the tile grid in place.
    fn transpose(&mut self)
        ensures
            forall|r: int, c: int| 0 <= r < SIZE && 0 <= c < SIZE ==>
                #[trigger] final(self).tile(r, c) == old(self).tile(c, r),
    {
        let ghost orig = *self;
        let mut i: usize = 0;
        while i < SIZE
            invariant
                i <= SIZE,
                forall|a: int, b: int| 0 <= a < SIZE && 0 <= b < SIZE ==>
                    #[trigger] self.tile(a, b) == if a < i || b < i {
                        orig.tile(b, a)
                    } else {
                        orig.tile(a, b)
                    },
            decreases SIZE - i,
        {
            let mut j: usize = i + 1;
            while j < SIZE
                invariant
                    i < SIZE,
                    i + 1 <= j <= SIZE,
                    forall|a: int, b: int| 0 <= a < SIZE && 0 <= b < SIZE ==>
                        #[trigger] self.tile(a, b) == if a < i || b < i || (a == i && i < b < j) || (b == i && i < a < j) {
                            orig.tile(b, a)
                        } else {
                            orig.tile(a, b)
                        },
                decreases SIZE - j,
            {
                let ghost prev = *self;
                let temp = self.tiles[i][j];
                self.tiles[i][j] = self.tiles[j][i];
                self.tiles[j][i] = temp;
                assert forall|a: int, b: int| 0 <= a < SIZE && 0 <= b < SIZE implies #[trigger] self.tile(a, b)
                    == if a == i && b == j { prev.tile(j as int, i as int) } else if a == j && b == i { prev.tile(i as int, j as int) } else { prev.tile(a, b) } by {}
                j += 1;
            }
            i += 1;
        }
    }

    /// Rotates the tile grid in place 90 degrees clockwise.
    fn rotate_clockwise(&mut self)
        ensures
            forall|r: int, c: int| 0 <= r < SIZE && 0 <= c < SIZE ==>
                #[trigger] final(self).tile(r, c) == old(self).tile(SIZE - 1 - c, r),
    {
        // 1. Reverse columns
        self.reverse_rows();
        // 2. Transpose
        self.transpose();
    }

    /// Rotates the tile grid in place 90 degrees counterclockwise.
    fn rotate_counterclockwise(&mut self)
        ensures
            forall|r: int, c: int| 0 <= r < SIZE && 0 <= c < SIZE ==>
                #[trigger] final(self).tile(r, c) == old(self).tile(c, SIZE - 1 - r),
    {
        // 1. Transpose
        self.transpose();
        // 2. Reverse columns
        self.reverse_rows();
    }
}


impl<const SIZE: usize> Face<SIZE> {
    /// Returns the colour of the tile at the given row and column.
    pub fn get_tile_colour(&self, row: usize, col: usize) -> (colour: Colour)
        requires
            row < SIZE,
            col < SIZE,
        ensures
            colour == self.tile(row as int, col as int),
    {
        self.tiles[row][col]
    }

    /// Sets the tile at the given row and column to the given colour.
    pub fn set_tile_colour(&mut self, row: usize, col: usize, tile: Colour)
        requires
            row < SIZE,
            col < SIZE,
        ensures
            forall|r: int, c: int| 0 <= r < SIZE && 0 <= c < SIZE ==>
                #[trigger] final(self).tile(r, c) == if r == row && c == col { tile } else { old(self).tile(r, c) },
    {
        let ghost prev = *self;
        self.tiles[row][col] = tile;
        assert forall|r: int, c: int| 0 <= r < SIZE && 0 <= c < SIZE implies
            #[trigger] self.tile(r, c) == if r == row && c == col { tile } else { prev.tile(r, c) } by {}
    }

    /// Returns all tiles in the given row.
    pub fn get_row(&self, row: usize) -> (tiles: [Colour; SIZE])
        requires
            row < SIZE,
        ensures
            forall|c: int| 0 <= c < SIZE ==> #[trigger] tiles@[c] == self.tile(row as int, c),
    {
        self.tiles[row]
    }

    /// Returns all tiles in the given column.
    pub fn get_col(&self, col: usize) -> (tiles: [Colour; SIZE])
        requires
            SIZE == 0 || col < SIZE,
        ensures
            forall|r: int| 0 <= r < SIZE ==> #[trigger] tiles@[r] == self.tile(r, col as int),
    {
        let mut tiles = [Colour::White; SIZE];
        let mut i: usize = 0;
        while i < SIZE
            invariant
                i <= SIZE,
                SIZE == 0 || col < SIZE,
                forall|r: int| 0 <= r < i ==> #[trigger] tiles@[r] == self.tile(r, col as int),
            decreases SIZE - i,
        {
            tiles[i] = self.tiles[i][col];
            i += 1;
        }
        tiles
    }

    /// Sets all tiles in the given row.
    pub fn set_row(&mut self, row: usize, data: [Colour; SIZE])
        requires
            row < SIZE,
        ensures
            forall|r: int, c: int| 0 <= r < SIZE && 0 <= c < SIZE ==>
                #[trigger] final(self).tile(r, c) == if r == row { data@[c] } else { old(self).tile(r, c) },
    {
        let ghost prev = *self;
        self.tiles[row] = data;
        assert forall|r: int, c: int| 0 <= r < SIZE && 0 <= c < SIZE implies
            #[trigger] self.tile(r, c) == if r == row { data@[c] } else { prev.tile(r, c) } by {}
    }

    /// Sets all tiles in the given column.
    pub fn set_col(&mut self, col: usize, data: [Colour; SIZE])
        requires
            SIZE == 0 || col < SIZE,
        ensures
            forall|r: int, c: int| 0 <= r < SIZE && 0 <= c < SIZE ==>
                #[trigger] final(self).tile(r, c) == if c == col { data@[r] } else { old(self).tile(r, c) },
    {
        let ghost orig = *self;
        let mut i: usize = 0;
        while i < SIZE
            invariant
                i <= SIZE,
                SIZE == 0 || col < SIZE,
                forall|r: int, c: int| 0 <= r < SIZE && 0 <= c < SIZE ==>
                    #[trigger] self.tile(r, c) == if c == col && r < i { data@[r] } else { orig.tile(r, c) },
            decreases SIZE - i,
        {
            let ghost prev = *self;
            self.tiles[i][col] = data[i];
            assert forall|r: int, c: int| 0 <= r < SIZE && 0 <= c < SIZE implies
                #[trigger] self.tile(r, c) == if r == i && c == col { data@[r] } else { prev.tile(r, c) } by {}
            i += 1;
        }
    }

    /// Returns true if all tiles on this face are the same colour.
    pub fn is_solved(&self) -> (solved: bool)
        requires
            SIZE > 0,
        ensures
            solved == face_uniform(*self),
    {
        let first = self.get_tile_colour(0, 0);
        let mut i: usize = 0;
        while i < SIZE
            invariant
                i <= SIZE,
                SIZE > 0,
                first == self.tile(0, 0),
                forall|r: int, c: int| 0 <= r < i && 0 <= c < SIZE ==> #[trigger] self.tile(r, c) == first,
            decreases SIZE - i,
        {
            let mut j: usize = 0;
            while j < SIZE
                invariant
                    i < SIZE,
                    j <= SIZE,
                    first == self.tile(0, 0),
                    forall|r: int, c: int| 0 <= r < i && 0 <= c < SIZE ==> #[trigger] self.tile(r, c) == first,
                    forall|c: int| 0 <= c < j ==> #[trigger] self.tile(i as int, c) == first,
                decreases SIZE - j,
            {
                if self.tiles[i][j] != first {
                    assert(self.tile(i as int, j as int) != self.tile(0, 0));
                    return false;
                }
                j += 1;
            }
            i += 1;
        }
        true
    }
}

/// The number of a face type, in the order Top, Bottom, Front, Back, Left, Right.
pub open spec fn face_index<const SIZE: usize>(face: FaceType<SIZE>) -> int {
    match face {
        FaceType::Top => 0,
        FaceType::Bottom => 1,
        FaceType::Front => 2,
        FaceType::Back => 3,
        FaceType::Left => 4,
        FaceType::Right => 5,
    }
}

/// The face type with the given number.
pub open spec fn face_of<const SIZE: usize>(k: int) -> FaceType<SIZE> {
    if k == 0 {
        FaceType::Top
    } else if k == 1 {
        FaceType::Bottom
    } else if k == 2 {
        FaceType::Front
    } else if k == 3 {
        FaceType::Back
    } else if k == 4 {
        FaceType::Left
    } else {
        FaceType::Right
    }
}

/// The colour of the face with the given number in the solved state.
pub open spec fn solved_colour(k: int) -> Colour {
    if k == 0 {
        Colour::White
    } else if k == 1 {
        Colour::Red
    } else if k == 2 {
        Colour::Green
    } else if k == 3 {
        Colour::Blue
    } else if k == 4 {
        Colour::Orange
    } else {
        Colour::Yellow
    }
}

/// Shorthand for an edge in the edge table.
pub open spec fn edge<const SIZE: usize>(face: FaceType<SIZE>, index: int, is_row: bool, reversed: bool) -> EdgeRef<SIZE> {
    EdgeRef { face, index: index as usize, is_row, reversed }
}

impl<const SIZE: usize> FaceType<SIZE> {
    /// Edge `i` (counted from 0 to 3, in clockwise order) of the four that take
    /// part in the cycle when this face is turned.
    pub open spec fn spec_edge(self, i: int) -> EdgeRef<SIZE> {
        let last = SIZE - 1;
        match self {
            FaceType::Top => if i == 0 {
                edge(FaceType::Front, 0, true, false)
            } else if i == 1 {
                edge(FaceType::Left, 0, true, false)
            } else if i == 2 {
                edge(FaceType::Back, 0, true, false)
            } else {
                edge(FaceType::Right, 0, true, false)
            },
            FaceType::Bottom => if i == 0 {
                edge(FaceType::Front, last, true, false)
            } else if i == 1 {
                edge(FaceType::Right, last, true, false)
            } else if i == 2 {
                edge(FaceType::Back, last, true, false)
            } else {
                edge(FaceType::Left, last, true, false)
            },
            FaceType::Left => if i == 0 {
                edge(FaceType::Front, 0, false, false)
            } else if i == 1 {
                edge(FaceType::Bottom, 0, false, false)
            } else if i == 2 {
                edge(FaceType::Back, last, false, true)
            } else {
                edge(FaceType::Top, 0, false, false)
            },
            FaceType::Right => if i == 0 {
                edge(FaceType::Front, last, false, false)
            } else if i == 1 {
                edge(FaceType::Top, last, false, false)
            } else if i == 2 {
                edge(FaceType::Back, 0, false, true)
            } else {
                edge(FaceType::Bottom, last, false, false)
            },
            FaceType::Front => if i == 0 {
                edge(FaceType::Top, last, true, false)
            } else if i == 1 {
                edge(FaceType::Right, 0, false, false)
            } else if i == 2 {
                edge(FaceType::Bottom, 0, true, true)
            } else {
                edge(FaceType::Left, last, false, true)
            },
            FaceType::Back => if i == 0 {
                edge(FaceType::Top, 0, true, true)
            } else if i == 1 {
                edge(FaceType::Left, 0, false, false)
            } else if i == 2 {
                edge(FaceType::Bottom, last, true, false)
            } else {
                edge(FaceType::Right, last, false, true)
            },
        }
    }

    /// Returns the colour this face has in the solved state.
    pub fn get_solved_colour(&self) -> (colour: Colour)
        ensures
            colour == solved_colour(face_index(*self)),
    {
        match self {
            FaceType::Top => Colour::White,
            FaceType::Bottom => Colour::Red,
            FaceType::Front => Colour::Green,
            FaceType::Back => Colour::Blue,
            FaceType::Left => Colour::Orange,
            FaceType::Right => Colour::Yellow,
        }
    }

    /// Returns the four edges that take part in a cycle when this face is
    /// turned, in clockwise order. Every face but the top names the last row
    /// or column of some face, so it needs at least one row.
    pub fn get_edges(&self) -> (edges: [EdgeRef<SIZE>; 4])
        requires
            SIZE > 0 || *self is Top,
        ensures
            forall|i: int| 0 <= i < 4 ==> #[trigger] edges@[i] == self.spec_edge(i),
    {
        let edges = match self {
            FaceType::Top => [
                EdgeRef { face: FaceType::Front, index: 0, is_row: true,  reversed: false },
                EdgeRef { face: FaceType::Left,  index: 0, is_row: true,  reversed: false },
                EdgeRef { face: FaceType::Back,  index: 0, is_row: true,  reversed: false },
                EdgeRef { face: FaceType::Right, index: 0, is_row: true,  reversed: false },
            ],
            FaceType::Bottom => [
                EdgeRef { face: FaceType::Front, index: SIZE - 1, is_row: true,  reversed: false },
                EdgeRef { face: FaceType::Right, index: SIZE - 1, is_row: true,  reversed: false },
                EdgeRef { face: FaceType::Back,  index: SIZE - 1, is_row: true,  reversed: false },
                EdgeRef { face: FaceType::Left,  index: SIZE - 1, is_row: true,  reversed: false },
            ],
            FaceType::Left => [
                EdgeRef { face: FaceType::Front,  index: 0,        is_row: false, reversed: false },
                EdgeRef { face: FaceType::Bottom, index: 0,        is_row: false, reversed: false },
                EdgeRef { face: FaceType::Back,   index: SIZE - 1, is_row: false, reversed: true  },
                EdgeRef { face: FaceType::Top,    index: 0,        is_row: false, reversed: false },
            ],
            FaceType::Right => [
                EdgeRef { face: FaceType::Front,  index: SIZE - 1, is_row: false, reversed: false },
                EdgeRef { face: FaceType::Top,    index: SIZE - 1, is_row: false, reversed: false },
                EdgeRef { face: FaceType::Back,   index: 0,        is_row: false, reversed: true  },
                EdgeRef { face: FaceType::Bottom, index: SIZE - 1, is_row: false, reversed: false },
            ],
            FaceType::Front => [
                EdgeRef { face: FaceType::Top,    index: SIZE - 1, is_row: true,  reversed: false },
                EdgeRef { face: FaceType::Right,  index: 0,        is_row: false, reversed: false },
                EdgeRef { face: FaceType::Bottom, index: 0,        is_row: true,  reversed: true  },
                EdgeRef { face: FaceType::Left,   index: SIZE - 1, is_row: false, reversed: true  },
            ],
            FaceType::Back => [
                EdgeRef { face: FaceType::Top,    index: 0,        is_row: true,  reversed: true  },
                EdgeRef { face: FaceType::Left,   index: 0,        is_row: false, reversed: false },
                EdgeRef { face: FaceType::Bottom, index: SIZE - 1, is_row: true,  reversed: false },
                EdgeRef { face: FaceType::Right,  index: SIZE - 1, is_row: false, reversed: true  },
            ],
        };
        edges
    }
}
/// Reverses a line of tiles in place.
pub(crate) fn reverse_line<const SIZE: usize>(line: &mut [Colour; SIZE])
    ensures
        forall|q: int| 0 <= q < SIZE ==> #[trigger] final(line)@[q] == old(line)@[SIZE - 1 - q],
{
    let ghost orig = *line;
    let half = SIZE / 2;
    let mut k: usize = 0;
    while k < half
        invariant
            half == SIZE / 2,
            k <= half,
            forall|q: int| 0 <= q < SIZE ==> #[trigger] line@[q] == if q < k || q > SIZE - 1 - k {
                orig@[SIZE - 1 - q]
            } else {
                orig@[q]
            },
        decreases half - k,
    {
        let other = SIZE - 1 - k;
        let temp = line[k];
        line[k] = line[other];
        line[other] = temp;
        k += 1;
    }
}

} // verus!
