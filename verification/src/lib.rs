pub mod balance;
pub mod config;
pub mod count;
pub mod cube;
pub mod env;
pub mod face;
pub mod geometry;
pub mod laws;
pub mod model;
pub mod sums;
pub mod training;
mod random;
pub mod turn;

pub use cube::{Cube, ScrambleType};
pub use face::{Colour, EdgeRef, Face, FaceType, CUBE_SIZE};
pub use turn::{Turn, TurnType};
