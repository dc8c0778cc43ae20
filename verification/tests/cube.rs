use std::collections::HashSet;

use rubiks::{Colour, Cube, FaceType, ScrambleType, Turn, TurnType};

#[test]
fn cube_new_cube() {
    let cube = Cube::<3>::new();

    // Ensure all faces are unique
    let mut set = HashSet::new();
    assert!(cube.get_faces().iter().all(|x| set.insert(x)));

    // Ensure all faces are solved
    assert!(cube.get_faces().iter().all(|x| x.is_solved()));

    let cube = Cube::<3>::default();
    let mut set = HashSet::new();
    assert!(cube.get_faces().iter().all(|x| set.insert(x)));
    assert!(cube.get_faces().iter().all(|x| x.is_solved()));
}

#[test]
fn cube_scramble_not_solved() {
    let mut cube = Cube::<3>::new();
    cube.scramble(20, ScrambleType::Seeded(42));
    assert!(!cube.is_solved());

    let mut cube = Cube::<3>::default();
    cube.scramble(30, ScrambleType::Seeded(42));
    assert!(!cube.is_solved());
}

#[test]
fn scramble_not_solved_2x2() {
    let mut cube = Cube::<2>::default();
    cube.scramble(30, ScrambleType::Seeded(42));
    assert!(!cube.is_solved());
}

#[test]
fn cube_scramble_seeded_deterministic() {
    let mut cube_a = Cube::<3>::new();
    let mut cube_b = Cube::<3>::new();
    cube_a.scramble(20, ScrambleType::Seeded(20));
    cube_b.scramble(20, ScrambleType::Seeded(20));
    assert_eq!(cube_a, cube_b);

    let mut cube_a = Cube::<3>::default();
    let mut cube_b = Cube::default();
    cube_a.scramble(30, ScrambleType::Seeded(20));
    cube_b.scramble(30, ScrambleType::Seeded(20));
    assert_eq!(cube_a, cube_b);
}

#[test]
fn cube_scramble_different_seeds_differ() {
    let mut cube_a = Cube::<3>::new();
    let mut cube_b = Cube::<3>::new();
    cube_a.scramble(20, ScrambleType::Seeded(50));
    cube_b.scramble(20, ScrambleType::Seeded(51));
    assert_ne!(cube_a, cube_b);

    let mut cube_a = Cube::<3>::default();
    let mut cube_b = Cube::default();
    cube_a.scramble(30, ScrambleType::Seeded(50));
    cube_b.scramble(30, ScrambleType::Seeded(51));
    assert_ne!(cube_a, cube_b);
}

#[test]
fn cube_make_turn_clockwise() {
    let mut cube = Cube::<3>::new();
    cube.make_turn(Turn::new(FaceType::Bottom, TurnType::Clockwise));

    // Check adjacent faces to the turned one
    assert_eq!(
        cube.get_face(FaceType::Front).get_tile_colour(2, 0),
        FaceType::<3>::Left.get_solved_colour()
    );
    assert_eq!(
        cube.get_face(FaceType::Left).get_tile_colour(2, 0),
        FaceType::<3>::Back.get_solved_colour()
    );
    assert_eq!(
        cube.get_face(FaceType::Back).get_tile_colour(2, 1),
        FaceType::<3>::Right.get_solved_colour()
    );
    assert_eq!(
        cube.get_face(FaceType::Right).get_tile_colour(2, 2),
        FaceType::<3>::Front.get_solved_colour()
    );

    const CUBE_SIZE: usize = 3;
    let mut cube = Cube::default();
    cube.make_turn(Turn::new(FaceType::Bottom, TurnType::Clockwise));
    assert_eq!(
        cube.get_face(FaceType::Front).get_row(2),
        [FaceType::<CUBE_SIZE>::Left.get_solved_colour(); CUBE_SIZE]
    );
    assert_eq!(
        cube.get_face(FaceType::Left).get_row(2),
        [FaceType::<CUBE_SIZE>::Back.get_solved_colour(); CUBE_SIZE]
    );
    assert_eq!(
        cube.get_face(FaceType::Back).get_row(2),
        [FaceType::<CUBE_SIZE>::Right.get_solved_colour(); CUBE_SIZE]
    );
    assert_eq!(
        cube.get_face(FaceType::Right).get_row(2),
        [FaceType::<CUBE_SIZE>::Front.get_solved_colour(); CUBE_SIZE]
    );
}

#[test]
fn cube_make_turn_counterclockwise() {
    let mut cube = Cube::<3>::new();
    cube.make_turn(Turn::new(FaceType::Bottom, TurnType::CounterClockwise));

    // Check one tile on each of the adjacent faces to the turned one
    assert_eq!(
        cube.get_face(FaceType::Front).get_tile_colour(2, 0),
        FaceType::<3>::Right.get_solved_colour()
    );
    assert_eq!(
        cube.get_face(FaceType::Right).get_tile_colour(2, 0),
        FaceType::<3>::Back.get_solved_colour()
    );
    assert_eq!(
        cube.get_face(FaceType::Back).get_tile_colour(2, 1),
        FaceType::<3>::Left.get_solved_colour()
    );
    assert_eq!(
        cube.get_face(FaceType::Left).get_tile_colour(2, 2),
        FaceType::<3>::Front.get_solved_colour()
    );

    const CUBE_SIZE: usize = 3;
    let mut cube = Cube::default();
    cube.make_turn(Turn::new(FaceType::Bottom, TurnType::CounterClockwise));
    assert_eq!(
        cube.get_face(FaceType::Front).get_row(2),
        [FaceType::<CUBE_SIZE>::Right.get_solved_colour(); CUBE_SIZE]
    );
    assert_eq!(
        cube.get_face(FaceType::Right).get_row(2),
        [FaceType::<CUBE_SIZE>::Back.get_solved_colour(); CUBE_SIZE]
    );
    assert_eq!(
        cube.get_face(FaceType::Back).get_row(2),
        [FaceType::<CUBE_SIZE>::Left.get_solved_colour(); CUBE_SIZE]
    );
    assert_eq!(
        cube.get_face(FaceType::Left).get_row(2),
        [FaceType::<CUBE_SIZE>::Front.get_solved_colour(); CUBE_SIZE]
    );
}

#[test]
fn cube_make_turn_half() {
    let mut cube = Cube::<3>::new();
    cube.make_turn(Turn::new(FaceType::Bottom, TurnType::Half));

    // Check one tile on each of the adjacent faces to the turned one
    assert_eq!(
        cube.get_face(FaceType::Front).get_tile_colour(2, 0),
        FaceType::<3>::Back.get_solved_colour()
    );
    assert_eq!(
        cube.get_face(FaceType::Right).get_tile_colour(2, 0),
        FaceType::<3>::Left.get_solved_colour()
    );
    assert_eq!(
        cube.get_face(FaceType::Back).get_tile_colour(2, 1),
        FaceType::<3>::Front.get_solved_colour()
    );
    assert_eq!(
        cube.get_face(FaceType::Left).get_tile_colour(2, 2),
        FaceType::<3>::Right.get_solved_colour()
    );

    const CUBE_SIZE: usize = 3;
    let mut cube = Cube::default();
    cube.make_turn(Turn::new(FaceType::Bottom, TurnType::Half));
    assert_eq!(
        cube.get_face(FaceType::Front).get_row(2),
        [FaceType::<CUBE_SIZE>::Back.get_solved_colour(); CUBE_SIZE]
    );
    assert_eq!(
        cube.get_face(FaceType::Right).get_row(2),
        [FaceType::<CUBE_SIZE>::Left.get_solved_colour(); CUBE_SIZE]
    );
    assert_eq!(
        cube.get_face(FaceType::Back).get_row(2),
        [FaceType::<CUBE_SIZE>::Front.get_solved_colour(); CUBE_SIZE]
    );
    assert_eq!(
        cube.get_face(FaceType::Left).get_row(2),
        [FaceType::<CUBE_SIZE>::Right.get_solved_colour(); CUBE_SIZE]
    );
}

#[test]
fn four_clockwise_returns_to_solved() {
    let mut cube = Cube::<3>::default();
    for _ in 0..4 {
        cube.make_turn(Turn::new(FaceType::Right, TurnType::Clockwise));
    }
    assert!(cube.is_solved());
}

#[test]
fn make_turn_clockwise_2x2() {
    const CUBE_SIZE: usize = 2;
    let mut cube = Cube::default();
    cube.make_turn(Turn::new(FaceType::Bottom, TurnType::Clockwise));

    assert_eq!(
        cube.get_face(FaceType::Front).get_row(1),
        [FaceType::<CUBE_SIZE>::Left.get_solved_colour(); CUBE_SIZE]
    );
    assert_eq!(
        cube.get_face(FaceType::Left).get_row(1),
        [FaceType::<CUBE_SIZE>::Back.get_solved_colour(); CUBE_SIZE]
    );
    assert_eq!(
        cube.get_face(FaceType::Back).get_row(1),
        [FaceType::<CUBE_SIZE>::Right.get_solved_colour(); CUBE_SIZE]
    );
    assert_eq!(
        cube.get_face(FaceType::Right).get_row(1),
        [FaceType::<CUBE_SIZE>::Front.get_solved_colour(); CUBE_SIZE]
    );
}

#[test]
fn make_turn_counterclockwise_2x2() {
    const CUBE_SIZE: usize = 2;
    let mut cube = Cube::default();
    cube.make_turn(Turn::new(FaceType::Bottom, TurnType::CounterClockwise));

    assert_eq!(
        cube.get_face(FaceType::Front).get_row(1),
        [FaceType::<CUBE_SIZE>::Right.get_solved_colour(); CUBE_SIZE]
    );
    assert_eq!(
        cube.get_face(FaceType::Right).get_row(1),
        [FaceType::<CUBE_SIZE>::Back.get_solved_colour(); CUBE_SIZE]
    );
    assert_eq!(
        cube.get_face(FaceType::Back).get_row(1),
        [FaceType::<CUBE_SIZE>::Left.get_solved_colour(); CUBE_SIZE]
    );
    assert_eq!(
        cube.get_face(FaceType::Left).get_row(1),
        [FaceType::<CUBE_SIZE>::Front.get_solved_colour(); CUBE_SIZE]
    );
}

#[test]
fn make_turn_half_2x2() {
    const CUBE_SIZE: usize = 2;
    let mut cube = Cube::default();
    cube.make_turn(Turn::new(FaceType::Bottom, TurnType::Half));

    assert_eq!(
        cube.get_face(FaceType::Front).get_row(1),
        [FaceType::<CUBE_SIZE>::Back.get_solved_colour(); CUBE_SIZE]
    );
    assert_eq!(
        cube.get_face(FaceType::Right).get_row(1),
        [FaceType::<CUBE_SIZE>::Left.get_solved_colour(); CUBE_SIZE]
    );
    assert_eq!(
        cube.get_face(FaceType::Back).get_row(1),
        [FaceType::<CUBE_SIZE>::Front.get_solved_colour(); CUBE_SIZE]
    );
    assert_eq!(
        cube.get_face(FaceType::Left).get_row(1),
        [FaceType::<CUBE_SIZE>::Right.get_solved_colour(); CUBE_SIZE]
    );
}

#[test]
fn four_clockwise_returns_to_solved_2x2() {
    let mut cube = Cube::<2>::default();
    for _ in 0..4 {
        cube.make_turn(Turn::new(FaceType::Right, TurnType::Clockwise));
    }
    assert!(cube.is_solved());
}

fn turn_in_and_out<const SIZE: usize>(cube: &mut Cube<SIZE>) {
    // Turn in
    cube.make_turn(Turn::new(FaceType::Bottom, TurnType::CounterClockwise));
    cube.make_turn(Turn::new(FaceType::Top, TurnType::Clockwise));
    cube.make_turn(Turn::new(FaceType::Right, TurnType::Half));
    cube.make_turn(Turn::new(FaceType::Left, TurnType::Clockwise));
    cube.make_turn(Turn::new(FaceType::Front, TurnType::Clockwise));
    cube.make_turn(Turn::new(FaceType::Back, TurnType::Half));

    // Turn out
    cube.make_turn(Turn::new(FaceType::Back, TurnType::Half));
    cube.make_turn(Turn::new(FaceType::Front, TurnType::CounterClockwise));
    cube.make_turn(Turn::new(FaceType::Left, TurnType::CounterClockwise));
    cube.make_turn(Turn::new(FaceType::Right, TurnType::Half));
    cube.make_turn(Turn::new(FaceType::Top, TurnType::CounterClockwise));
    cube.make_turn(Turn::new(FaceType::Bottom, TurnType::Clockwise));
}

#[test]
fn cube_make_turns_reversible() {
    let mut cube = Cube::<3>::new();
    turn_in_and_out(&mut cube);
    assert!(cube.is_solved());

    let mut cube = Cube::<3>::default();
    turn_in_and_out(&mut cube);
    assert!(cube.is_solved());
}

#[test]
fn make_turns_reversible_2x2() {
    let mut cube = Cube::<2>::default();
    turn_in_and_out(&mut cube);
    assert!(cube.is_solved());
}

#[test]
fn cube_is_solved_true() {
    let cube = Cube::<3>::new();
    assert!(cube.is_solved());
    let cube = Cube::<3>::default();
    assert!(cube.is_solved());
}

#[test]
fn cube_is_solved_false() {
    let mut cube = Cube::<3>::new();
    cube.get_face_mut(FaceType::Back).set_tile_colour(0, 0, Colour::Yellow);
    assert!(!cube.is_solved());

    let mut cube = Cube::<3>::default();
    cube.get_face_mut(FaceType::Back).set_tile_colour(0, 0, Colour::Yellow);
    assert!(!cube.is_solved());
}

#[test]
fn count_solved_all() {
    let cube = Cube::<3>::default();
    assert_eq!(cube.count_solved_faces(), 6);
}

#[test]
fn count_solved_after_one_move() {
    let mut cube = Cube::<3>::default();
    cube.make_turn(Turn::new(FaceType::Bottom, TurnType::Clockwise));
    assert_eq!(cube.count_solved_faces(), 2);
}

#[test]
fn cube_turn_then_inverse_restores_any_cube() {
    let mut cube = Cube::<3>::default();
    cube.scramble(15, ScrambleType::Seeded(7));
    let before = cube.clone();
    for face in [FaceType::Top, FaceType::Bottom, FaceType::Front, FaceType::Back, FaceType::Left, FaceType::Right] {
        for (t, inv) in [
            (TurnType::Clockwise, TurnType::CounterClockwise),
            (TurnType::CounterClockwise, TurnType::Clockwise),
            (TurnType::Half, TurnType::Half),
        ] {
            cube.make_turn(Turn::new(face, t));
            cube.make_turn(Turn::new(face, inv));
            assert_eq!(cube, before);
        }
    }
}

#[test]
fn cube_two_clockwise_equal_half() {
    let mut a = Cube::<3>::default();
    a.scramble(10, ScrambleType::Seeded(3));
    let mut b = a.clone();
    a.make_turn(Turn::new(FaceType::Front, TurnType::Clockwise));
    a.make_turn(Turn::new(FaceType::Front, TurnType::Clockwise));
    b.make_turn(Turn::new(FaceType::Front, TurnType::Half));
    assert_eq!(a, b);
}

#[test]
fn cube_random_scramble_not_solved() {
    for moves in [0, 1, 2, 5] {
        let mut cube = Cube::<2>::default();
        cube.scramble(moves, ScrambleType::Random);
        assert!(!cube.is_solved());
    }
}

#[test]
fn cube_scramble_zero_moves_makes_one_turn() {
    let mut cube = Cube::<3>::default();
    cube.scramble(0, ScrambleType::Seeded(1));
    assert!(!cube.is_solved());
    assert_eq!(cube.count_solved_faces(), 2);
}

#[test]
fn cube_front_turn_moves_top_row_to_right_column() {
    let mut cube = Cube::<3>::default();
    cube.make_turn(Turn::new(FaceType::Front, TurnType::Clockwise));
    assert_eq!(cube.get_face(FaceType::Right).get_col(0), [Colour::White; 3]);
    assert_eq!(cube.get_face(FaceType::Top).get_row(2), [Colour::Orange; 3]);
    assert_eq!(cube.get_face(FaceType::Bottom).get_row(0), [Colour::Yellow; 3]);
    assert_eq!(cube.get_face(FaceType::Left).get_col(2), [Colour::Red; 3]);
    assert!(cube.get_face(FaceType::Front).is_solved());
    assert!(cube.get_face(FaceType::Back).is_solved());
}

#[test]
fn cube_back_turn_moves_bottom_back_row() {
    let mut cube = Cube::<3>::default();
    cube.make_turn(Turn::new(FaceType::Back, TurnType::Clockwise));
    assert_eq!(cube.get_face(FaceType::Left).get_col(0), [Colour::White; 3]);
    assert_eq!(cube.get_face(FaceType::Bottom).get_row(2), [Colour::Orange; 3]);
    assert_eq!(cube.get_face(FaceType::Right).get_col(2), [Colour::Red; 3]);
    assert_eq!(cube.get_face(FaceType::Top).get_row(0), [Colour::Yellow; 3]);
    assert_eq!(cube.get_face(FaceType::Bottom).get_col(2), [Colour::Red, Colour::Red, Colour::Orange]);
    assert!(cube.get_face(FaceType::Front).is_solved());
    assert!(cube.get_face(FaceType::Back).is_solved());
    assert_eq!(cube.count_solved_faces(), 2);
}

#[test]
fn cube_left_turn_moves_top_to_front() {
    let mut cube = Cube::<3>::default();
    cube.make_turn(Turn::new(FaceType::Left, TurnType::Clockwise));
    assert_eq!(cube.get_face(FaceType::Front).get_col(0), [Colour::White; 3]);
    assert_eq!(cube.get_face(FaceType::Bottom).get_col(0), [Colour::Green; 3]);
    assert_eq!(cube.get_face(FaceType::Back).get_col(2), [Colour::Red; 3]);
    assert_eq!(cube.get_face(FaceType::Top).get_col(0), [Colour::Blue; 3]);
    assert!(cube.get_face(FaceType::Right).is_solved());
}

#[test]
fn cube_right_turn_moves_front_to_top() {
    let mut cube = Cube::<3>::default();
    cube.make_turn(Turn::new(FaceType::Right, TurnType::Clockwise));
    assert_eq!(cube.get_face(FaceType::Top).get_col(2), [Colour::Green; 3]);
    assert_eq!(cube.get_face(FaceType::Back).get_col(0), [Colour::White; 3]);
    assert_eq!(cube.get_face(FaceType::Bottom).get_col(2), [Colour::Blue; 3]);
    assert_eq!(cube.get_face(FaceType::Front).get_col(2), [Colour::Red; 3]);
    assert!(cube.get_face(FaceType::Left).is_solved());
}

#[test]
fn cube_turns_carry_corner_tiles_along() {
    // Back clockwise takes the top's back-right corner tile to the top of the
    // left face's back column.
    let mut cube = Cube::<3>::default();
    cube.get_face_mut(FaceType::Top).set_tile_colour(0, 2, Colour::Red);
    cube.make_turn(Turn::new(FaceType::Back, TurnType::Clockwise));
    assert_eq!(cube.get_face(FaceType::Left).get_tile_colour(0, 0), Colour::Red);
    assert_eq!(cube.get_face(FaceType::Left).get_tile_colour(2, 0), Colour::White);

    // Left clockwise takes the top's back-left corner tile to the front's
    // top-left corner.
    let mut cube = Cube::<3>::default();
    cube.get_face_mut(FaceType::Top).set_tile_colour(0, 0, Colour::Red);
    cube.make_turn(Turn::new(FaceType::Left, TurnType::Clockwise));
    assert_eq!(cube.get_face(FaceType::Front).get_tile_colour(0, 0), Colour::Red);

    // Top clockwise takes the left's back-top corner tile to the back's
    // top row at column 0, the corner next to the right face.
    let mut cube = Cube::<3>::default();
    cube.get_face_mut(FaceType::Left).set_tile_colour(0, 0, Colour::Red);
    cube.make_turn(Turn::new(FaceType::Top, TurnType::Clockwise));
    assert_eq!(cube.get_face(FaceType::Back).get_tile_colour(0, 0), Colour::Red);
}

#[test]
fn cube_one_turn_of_each_face_leaves_two_solved_faces() {
    for size_three in [true, false] {
        for face in [FaceType::Top, FaceType::Bottom, FaceType::Front, FaceType::Back, FaceType::Left, FaceType::Right] {
            for turn_type in [TurnType::Clockwise, TurnType::CounterClockwise, TurnType::Half] {
                if size_three {
                    let mut cube = Cube::<3>::default();
                    cube.make_turn(Turn::new(face, turn_type));
                    assert_eq!(cube.count_solved_faces(), 2);
                } else {
                    let mut cube = Cube::<2>::default();
                    cube.make_turn(Turn::<2>::new(match face {
                        FaceType::Top => FaceType::Top,
                        FaceType::Bottom => FaceType::Bottom,
                        FaceType::Front => FaceType::Front,
                        FaceType::Back => FaceType::Back,
                        FaceType::Left => FaceType::Left,
                        FaceType::Right => FaceType::Right,
                    }, turn_type));
                    assert_eq!(cube.count_solved_faces(), 2);
                }
            }
        }
    }
}
