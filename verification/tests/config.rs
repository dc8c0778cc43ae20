use rubiks::config::{
    env_parse, env_parse_bool, env_parse_clamped, env_parse_min, parse_flag, resolve_clamped, resolve_min, TrainingConfig,
};
use std::path::PathBuf;

fn config(min_steps: usize, max_steps_cap: usize) -> TrainingConfig {
    TrainingConfig {
        run_name: "run".to_string(),
        log_dir: PathBuf::from("logs"),
        net_dir: PathBuf::from("nets"),
        episodes: 10,
        num_envs: 2,
        learning_starts: 0,
        min_steps,
        max_steps_cap,
        max_scramble: 5,
        eval_every: 0,
        eval_episodes: 1,
        log_every: 1,
        save_every: 1,
    }
}

#[test]
fn config_max_steps_clamps() {
    let c = config(3, 40);
    assert_eq!(c.max_steps(0), 3);
    assert_eq!(c.max_steps(1), 3);
    assert_eq!(c.max_steps(5), 15);
    assert_eq!(c.max_steps(13), 39);
    assert_eq!(c.max_steps(20), 40);
}

#[test]
fn config_env_parse() {
    assert_eq!(env_parse(Some("17"), 5), 17);
    assert_eq!(env_parse(Some("x17"), 5), 5);
    assert_eq!(env_parse(None, 5), 5);
    assert_eq!(env_parse_min(Some("0"), 16, 1), 1);
    assert_eq!(env_parse_min(Some("8"), 16, 1), 8);
    assert_eq!(env_parse_min(None, 16, 1), 16);
    assert_eq!(env_parse_min(Some("-3"), 16, 1), 16);
    assert_eq!(env_parse_clamped(Some("500"), 10, 1, 100), 100);
    assert_eq!(env_parse_clamped(Some("0"), 10, 1, 100), 1);
    assert_eq!(env_parse_clamped(Some("42"), 10, 1, 100), 42);
    assert_eq!(env_parse_clamped(None, 10, 1, 100), 10);
}

#[test]
fn config_resolve() {
    assert_eq!(resolve_min(Some(3), 9, 5), 5);
    assert_eq!(resolve_min(None, 9, 5), 9);
    assert_eq!(resolve_min(Some(7), 9, 5), 7);
    assert_eq!(resolve_clamped(Some(200), 9, 5, 100), 100);
    assert_eq!(resolve_clamped(None, 2, 5, 100), 5);
}

#[test]
fn flag_words_in_any_case() {
    assert_eq!(parse_flag("1"), Some(true));
    assert_eq!(parse_flag("TRUE"), Some(true));
    assert_eq!(parse_flag("Yes"), Some(true));
    assert_eq!(parse_flag("oN"), Some(true));
    assert_eq!(parse_flag("0"), Some(false));
    assert_eq!(parse_flag("False"), Some(false));
    assert_eq!(parse_flag("NO"), Some(false));
    assert_eq!(parse_flag("off"), Some(false));
}

#[test]
fn flag_other_text_says_nothing() {
    assert_eq!(parse_flag(""), None);
    assert_eq!(parse_flag("maybe"), None);
    assert_eq!(parse_flag(" true"), None);
    assert_eq!(parse_flag("2"), None);
    assert_eq!(parse_flag("ÖN"), None);
}

#[test]
fn env_parse_bool_falls_back_to_default() {
    assert!(env_parse_bool(Some("On"), false));
    assert!(!env_parse_bool(Some("OFF"), true));
    assert!(env_parse_bool(Some("perhaps"), true));
    assert!(!env_parse_bool(Some("perhaps"), false));
    assert!(env_parse_bool(None, true));
    assert!(!env_parse_bool(None, false));
}

#[test]
fn run_settings_defaults_and_minimums() {
    let s = rubiks::config::settings_from_texts(None, None, None, None, None, None, None, None, None, None);
    assert_eq!(
        (s.min_steps, s.max_steps_cap, s.episodes, s.num_envs, s.learning_starts),
        (3, 40, 50_000, 16, 5_000)
    );
    assert_eq!((s.max_scramble, s.eval_every, s.eval_episodes, s.log_every, s.save_every), (20, 0, 64, 1, 100));
    let s = rubiks::config::settings_from_texts(
        Some("9"),
        Some("4"),
        Some("0"),
        Some("x"),
        Some("0"),
        Some("7"),
        Some("12"),
        Some("0"),
        Some("0"),
        Some("0"),
    );
    assert_eq!((s.min_steps, s.max_steps_cap, s.episodes, s.num_envs, s.learning_starts), (9, 9, 1, 16, 0));
    assert_eq!((s.max_scramble, s.eval_every, s.eval_episodes, s.log_every, s.save_every), (7, 12, 1, 1, 1));
}

#[test]
fn schedule_settings_defaults_and_bounds() {
    let s = rubiks::config::schedule_from_texts(None, None, None, None, None, None, None);
    assert_eq!(
        (s.buffer_size, s.batch_size, s.update_every, s.target_network_frequency, s.curriculum_threshold, s.curriculum_min_episodes),
        (200_000, 256, 4, 8_000, 10, 1)
    );
    assert!(!s.clear_replay_on_advance);
    let s = rubiks::config::schedule_from_texts(Some("0"), Some("32"), Some("2"), Some("0"), Some("500"), Some("0"), Some("Yes"));
    assert_eq!(
        (s.buffer_size, s.batch_size, s.update_every, s.target_network_frequency, s.curriculum_threshold, s.curriculum_min_episodes),
        (1, 32, 2, 1, 100, 1)
    );
    assert!(s.clear_replay_on_advance);
}

#[test]
fn setting_parse_agrees_with_std() {
    let texts = [
        "", "+", "-", "-0", "0", "+0", "7", "+7", "007", " 7", "7 ", "1_000", "12a", "a12", "++1", "+-1",
        "4294967295", "4294967296", "18446744073709551615", "18446744073709551616",
        "99999999999999999999999", "\u{663}", "\u{ff17}", "1\u{e9}",
    ];
    for text in texts {
        assert_eq!(env_parse(Some(text), 42), text.parse::<usize>().unwrap_or(42), "text {text:?}");
    }
    assert_eq!(env_parse(Some("+15"), 0), 15);
    assert_eq!(env_parse(Some("-3"), 5), 5);
}
