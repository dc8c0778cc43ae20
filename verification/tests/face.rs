use rubiks::{Colour, Face, FaceType, TurnType, CUBE_SIZE};

#[test]
fn face_new_face() {
    let face = Face::<CUBE_SIZE>::new(Colour::Green);
    for i in 0..CUBE_SIZE {
        for j in 0..CUBE_SIZE {
            assert_eq!(face.get_tile_colour(i, j), Colour::Green);
        }
    }
    let face = Face::<3>::new(Colour::Green);
    for i in 0..3 {
        for j in 0..3 {
            assert_eq!(face.get_tile_colour(i, j), Colour::Green);
        }
    }
}

fn sample_face() -> Face<3> {
    let mut face = Face::<3>::new(Colour::Blue);
    face.set_tile_colour(0, 0, Colour::Green);
    face.set_tile_colour(0, 1, Colour::White);
    face.set_tile_colour(2, 2, Colour::Red);
    // G W B
    // B B B
    // B B R
    face
}

#[test]
fn face_make_turn_clockwise() {
    let mut face = sample_face();
    face.make_turn(TurnType::Clockwise);
    // B B G
    // B B W
    // R B B

    let mut target_face = Face::<3>::new(Colour::Blue);
    target_face.set_tile_colour(0, 2, Colour::Green);
    target_face.set_tile_colour(1, 2, Colour::White);
    target_face.set_tile_colour(2, 0, Colour::Red);

    assert_eq!(face, target_face);
}

#[test]
fn face_make_turn_counterclockwise() {
    let mut face = sample_face();
    face.make_turn(TurnType::CounterClockwise);
    // B B R
    // W B B
    // G B B

    let mut target_face = Face::<3>::new(Colour::Blue);
    target_face.set_tile_colour(0, 2, Colour::Red);
    target_face.set_tile_colour(1, 0, Colour::White);
    target_face.set_tile_colour(2, 0, Colour::Green);

    assert_eq!(face, target_face);
}

#[test]
fn face_make_half_turn() {
    let mut face = sample_face();
    face.make_turn(TurnType::Half);
    // R B B
    // B B B
    // B W G

    let mut target_face = Face::<3>::new(Colour::Blue);
    target_face.set_tile_colour(0, 0, Colour::Red);
    target_face.set_tile_colour(2, 1, Colour::White);
    target_face.set_tile_colour(2, 2, Colour::Green);

    assert_eq!(face, target_face);
}

#[test]
fn face_is_solved_false() {
    let mut face = Face::<3>::new(Colour::Yellow);
    face.set_tile_colour(0, 0, Colour::Blue);
    assert!(!face.is_solved());
}

#[test]
fn face_is_solved_true() {
    let face = Face::<3>::new(Colour::Yellow);
    assert!(face.is_solved());
}

#[test]
fn face_rows_and_columns() {
    let face = sample_face();
    assert_eq!(face.get_row(0), [Colour::Green, Colour::White, Colour::Blue]);
    assert_eq!(face.get_col(2), [Colour::Blue, Colour::Blue, Colour::Red]);

    let mut face = Face::<3>::new(Colour::Blue);
    face.set_row(1, [Colour::Red, Colour::Green, Colour::White]);
    assert_eq!(face.get_row(1), [Colour::Red, Colour::Green, Colour::White]);
    assert_eq!(face.get_row(0), [Colour::Blue; 3]);
    face.set_col(0, [Colour::Orange, Colour::Yellow, Colour::Orange]);
    assert_eq!(face.get_col(0), [Colour::Orange, Colour::Yellow, Colour::Orange]);
    assert_eq!(face.get_tile_colour(1, 1), Colour::Green);
    assert_eq!(face.get_tile_colour(1, 2), Colour::White);
}

#[test]
fn face_four_clockwise_turns_restore() {
    let mut face = sample_face();
    let before = face;
    for _ in 0..4 {
        face.make_turn(TurnType::Clockwise);
    }
    assert_eq!(face, before);
    face.make_turn(TurnType::Clockwise);
    face.make_turn(TurnType::CounterClockwise);
    assert_eq!(face, before);
}

#[test]
fn face_solved_colours() {
    assert_eq!(FaceType::<3>::Top.get_solved_colour(), Colour::White);
    assert_eq!(FaceType::<3>::Bottom.get_solved_colour(), Colour::Red);
    assert_eq!(FaceType::<3>::Front.get_solved_colour(), Colour::Green);
    assert_eq!(FaceType::<3>::Back.get_solved_colour(), Colour::Blue);
    assert_eq!(FaceType::<3>::Left.get_solved_colour(), Colour::Orange);
    assert_eq!(FaceType::<3>::Right.get_solved_colour(), Colour::Yellow);
}

#[test]
fn face_edges_of_front() {
    let edges = FaceType::<3>::Front.get_edges();
    assert_eq!(edges[0].face, FaceType::Top);
    assert_eq!(edges[0].index, 2);
    assert!(edges[0].is_row && !edges[0].reversed);
    assert_eq!(edges[3].face, FaceType::Left);
    assert_eq!(edges[3].index, 2);
    assert!(!edges[3].is_row && edges[3].reversed);
    let edges = FaceType::<2>::Bottom.get_edges();
    assert_eq!(edges[1].face, FaceType::Right);
    assert_eq!(edges[1].index, 1);
}

#[test]
fn face_top_edges_of_an_empty_cube() {
    let edges = rubiks::FaceType::<0>::Top.get_edges();
    assert_eq!(edges[0].face, rubiks::FaceType::Front);
    assert!(edges.iter().all(|e| e.index == 0 && e.is_row && !e.reversed));
}
