use rubiks::training::{
    acts_at_random, envs_to_reset, episode_end_duties, is_multiple, should_sync_targets, should_update, tick_metrics,
    Curriculum, EvalNext, EvalTally,
};

#[test]
fn training_multiples() {
    assert!(is_multiple(12, 4));
    assert!(!is_multiple(13, 4));
    assert!(is_multiple(0, 0));
    assert!(!is_multiple(5, 0));
}

#[test]
fn training_update_schedule() {
    assert!(!should_update(100, 100, 500, 256, 4)); // learning has not started
    assert!(should_update(104, 100, 500, 256, 4));
    assert!(!should_update(104, 100, 200, 256, 4)); // not a full batch yet
    assert!(!should_update(105, 100, 500, 256, 4));
    assert!(should_sync_targets(16_000, 5_000, 8_000));
    assert!(!should_sync_targets(8_000, 8_000, 8_000));
}

#[test]
fn training_metrics_tick() {
    assert_eq!(tick_metrics(0, 64), (1, false));
    assert_eq!(tick_metrics(63, 64), (0, true));
}

#[test]
fn training_curriculum_advances() {
    let mut c = Curriculum::new(0);
    assert_eq!(c.scramble_depth(), 1);
    let mut solves = 0;
    for _ in 0..10 {
        solves = c.record_episode(true, 1, 0);
    }
    assert_eq!(solves, 10);
    assert_eq!(c.completed_episodes(), 10);
    assert!(!c.try_advance(solves, 11, 1, 20));
    assert!(c.try_advance(solves, 10, 1, 20));
    assert_eq!(c.scramble_depth(), 2);
    assert_eq!(c.episodes_at_depth(), 0);
    // the window starts afresh at the new depth
    assert_eq!(c.record_episode(false, 2, 0), 0);
    // the depth stops at the maximum
    let mut c = Curriculum::new(0);
    c.record_episode(true, 1, 0);
    assert!(!c.try_advance(100, 1, 1, 1));
}

#[test]
fn training_curriculum_waits_for_learning() {
    let mut c = Curriculum::new(50);
    assert_eq!(c.record_episode(true, 10, 50), 1);
    assert!(!c.try_advance(100, 1, 0, 20));
    // the first episode after learning starts opens the curriculum with an empty window
    assert_eq!(c.record_episode(true, 60, 50), 0);
    assert_eq!(c.episodes_at_depth(), 0);
    assert!(c.try_advance(100, 1, 0, 20));
}

#[test]
fn training_window_wraps() {
    let mut c = Curriculum::new(0);
    for _ in 0..100 {
        c.record_episode(true, 1, 0);
    }
    let mut last = 0;
    for _ in 0..30 {
        last = c.record_episode(false, 1, 0);
    }
    assert_eq!(last, 70);
}

#[test]
fn eval_tally_counts_steps_solves_and_episodes() {
    let mut tally = EvalTally::new(2);
    assert!(tally.running());
    assert_eq!(tally.record_step(false, false), EvalNext::Continue);
    assert_eq!(tally.record_step(true, false), EvalNext::Reset);
    assert!(tally.running());
    assert_eq!(tally.record_step(false, false), EvalNext::Continue);
    assert_eq!(tally.record_step(false, true), EvalNext::Finish);
    assert!(!tally.running());
    assert_eq!(tally.solve_count(), 1);
    assert_eq!(tally.step_count(), 4);
}

#[test]
fn eval_tally_owing_nothing_is_not_running() {
    let mut tally = EvalTally::new(0);
    assert!(!tally.running());
    assert_eq!(tally.record_step(true, true), EvalNext::Finish);
    assert_eq!(tally.solve_count(), 1);
    assert_eq!(tally.step_count(), 1);
}

#[test]
fn training_acts_at_random_before_learning() {
    assert!(acts_at_random(0, 5));
    assert!(acts_at_random(4, 5));
    assert!(!acts_at_random(5, 5));
    assert!(!acts_at_random(0, 0));
}

#[test]
fn training_episode_end_duties() {
    let d = episode_end_duties(20, 10, 4, 7, true);
    assert!(d.evaluate && d.log && !d.save);
    let d = episode_end_duties(21, 0, 4, 7, true);
    assert!(!d.evaluate && !d.log && d.save);
    let d = episode_end_duties(8, 0, 4, 1, false);
    assert!(!d.evaluate && !d.log && d.save);
}

#[test]
fn training_envs_to_reset() {
    assert_eq!(envs_to_reset(true, 2, 4), vec![0, 1, 2, 3]);
    assert_eq!(envs_to_reset(false, 2, 4), vec![2]);
}
