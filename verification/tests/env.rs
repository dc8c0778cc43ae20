use rubiks::cube::Cube;
use rubiks::env::{count_correct_facelets, encode_cube, CubeEnv, ReplayBuffer, ACTIONS, ENCODING_LEN, FACELETS};
use rubiks::{FaceType, Turn, TurnType};

#[test]
fn env_new_is_solved() {
    let env = CubeEnv::new();
    assert!(env.get_cube().is_solved());
    assert_eq!(count_correct_facelets(env.get_cube()), FACELETS);
}

#[test]
fn env_map_action_covers_all_turns() {
    let faces = [FaceType::Top, FaceType::Bottom, FaceType::Front, FaceType::Back, FaceType::Left, FaceType::Right];
    for action in 0..ACTIONS {
        let turn = CubeEnv::map_action(action);
        assert_eq!(turn.face_type, faces[action / 3]);
        let expected = match action % 3 {
            0 => TurnType::Clockwise,
            1 => TurnType::CounterClockwise,
            _ => TurnType::Half,
        };
        assert_eq!(turn.turn_type, expected);
    }
    // Actions past the last face fall on the right face
    assert_eq!(CubeEnv::map_action(25).face_type, FaceType::Right);
    assert_eq!(CubeEnv::map_action(25).turn_type, TurnType::CounterClockwise);
}

#[test]
fn env_step_then_undo_solves() {
    let mut env = CubeEnv::new();
    let _ = env.seeded_reset(0, 10, 5);
    assert!(!env.get_cube().is_solved());

    let mut env = CubeEnv::new();
    let status = env.step(0); // Top clockwise
    assert!(!status.terminated);
    assert!(status.truncated); // max_steps is 0 for a new environment
    let status = env.step(1); // Top counterclockwise
    assert!(status.terminated);
    assert!(!status.truncated);
    assert_eq!(status.correct_facelets, FACELETS);
}

#[test]
fn env_step_truncates_at_limit() {
    let mut env = CubeEnv::new();
    let state = env.seeded_reset(3, 2, 11);
    assert_eq!(state.len(), ENCODING_LEN);
    let first = env.step(2);
    assert!(!first.truncated || first.terminated == false);
    let second = env.step(2);
    if !second.terminated {
        assert!(second.truncated);
    }
}

#[test]
fn env_encoding_is_one_hot() {
    let cube = Cube::<2>::default();
    let data = encode_cube(&cube);
    assert_eq!(data.len(), ENCODING_LEN);
    for tile in 0..24 {
        let ones = (0..6).filter(|&c| data[tile * 6 + c]).count();
        assert_eq!(ones, 1);
    }
    // Face k of the solved cube has colour k
    for k in 0..6 {
        assert!(data[k * 24 + k]);
    }
}

#[test]
fn env_correct_facelets_after_one_turn() {
    let mut cube = Cube::<2>::default();
    cube.make_turn(Turn::new(FaceType::Bottom, TurnType::Clockwise));
    // Top and Bottom stay whole (4 each); each side face has 2 of its own
    // colour and 2 of another.
    assert_eq!(count_correct_facelets(&cube), 4 + 4 + 2 * 4);
}

#[test]
fn replay_buffer_overwrites_oldest() {
    let mut buffer = ReplayBuffer::new(3);
    assert_eq!(buffer.len(), 0);
    for i in 0..5u32 {
        buffer.push(i);
    }
    assert_eq!(buffer.len(), 3);
    let mut sample: Vec<u32> = buffer.sample(10).into_iter().copied().collect();
    sample.sort();
    assert_eq!(sample, vec![2, 3, 4]);
    assert_eq!(buffer.sample(2).len(), 2);
    buffer.clear();
    assert_eq!(buffer.len(), 0);
    buffer.push(9);
    assert_eq!(buffer.len(), 1);
    let sample: Vec<u32> = buffer.sample(4).into_iter().copied().collect();
    assert_eq!(sample, vec![9]);
}

#[test]
fn replay_buffer_sample_distinct() {
    let mut buffer = ReplayBuffer::new(50);
    for i in 0..50u32 {
        buffer.push(i);
    }
    let mut sample: Vec<u32> = buffer.sample(20).into_iter().copied().collect();
    assert_eq!(sample.len(), 20);
    sample.sort();
    sample.dedup();
    assert_eq!(sample.len(), 20);
}

#[test]
fn replay_buffer_keeps_latest_pushes() {
    let mut buffer = ReplayBuffer::new(3);
    for t in 1..=7u32 {
        buffer.push(t);
    }
    assert_eq!(buffer.len(), 3);
    // pushes 5, 6, 7 sit in slots 5 % 3, 6 % 3, 7 % 3
    let mut held: Vec<u32> = buffer.sample(3).into_iter().copied().collect();
    held.sort();
    assert_eq!(held, vec![5, 6, 7]);
}
