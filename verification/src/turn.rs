use vstd::prelude::*;

use crate::face::FaceType;

verus! {

/// The direction and magnitude of a turn.
#[derive(Clone, Copy, Debug, PartialEq, Eq, Structural)]
pub enum TurnType {
    /// A 90 degree clockwise rotation.
    Clockwise,
    /// A 90 degree counterclockwise rotation.
    CounterClockwise,
    /// A 180 degree rotation.
    Half,
}

/// A single move on the cube: a face and a turn direction.
#[derive(Clone, Copy, Debug)]
pub struct Turn<const SIZE: usize> {
    /// The face to be turned.
    pub face_type: FaceType<SIZE>,
    /// The direction and magnitude of the turn.
    pub turn_type: TurnType,
}

impl TurnType {
    /// The turn type that undoes this one.
    pub open spec fn inverse(self) -> TurnType {
        match self {
            TurnType::Clockwise => TurnType::CounterClockwise,
            TurnType::CounterClockwise => TurnType::Clockwise,
            TurnType::Half => TurnType::Half,
        }
    }
}

impl<const SIZE: usize> Turn<SIZE> {
    /// Creates a new turn with the given face and turn type.
    pub fn new(face_type: FaceType<SIZE>, turn_type: TurnType) -> (turn: Self)
        ensures
            turn.face_type == face_type,
            turn.turn_type == turn_type,
    {
        Turn { face_type, turn_type }
    }

    /// The turn of the same face that undoes this one.
    pub open spec fn inverse(self) -> Turn<SIZE> {
        Turn { face_type: self.face_type, turn_type: self.turn_type.inverse() }
    }
}

} // verus!
