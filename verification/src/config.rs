//! The settings of a training run, and how a setting is read from the text
//! of an environment variable.
use vstd::prelude::*;

use std::path::PathBuf;

verus! {

/// `std::path::PathBuf`; opaque here, carried through unread.
#[verifier::external_type_specification]
#[verifier::external_body]
pub struct ExPathBuf(PathBuf);

/// `c` is one of the ASCII digits '0' to '9'.
pub open spec fn is_digit(c: char) -> bool {
    48 <= (c as int) && (c as int) <= 57
}

/// The number that the digits `d` spell in decimal.
pub open spec fn decimal_value(d: Seq<char>) -> int
    decreases d.len(),
{
    if d.len() == 0 {
        0
    } else {
        decimal_value(d.drop_last()) * 10 + ((d.last() as int) - 48)
    }
}

/// The digits of an unsigned number's text: the text without its leading '+',
/// if it has one.
pub open spec fn unsigned_digits(text: Seq<char>) -> Seq<char> {
    if text.len() > 0 && text[0] == '+' {
        text.drop_first()
    } else {
        text
    }
}

/// What `str::parse::<usize>` makes of a text, as std documents it: an
/// optional '+' followed by one or more ASCII digits spells the number they
/// give in decimal, which must fit in `usize`; any other text is refused.
pub open spec fn parsed_usize(text: Seq<char>) -> Option<usize> {
    let d = unsigned_digits(text);
    if d.len() > 0 && (forall|i: int| 0 <= i < d.len() ==> #[trigger] is_digit(d[i])) && decimal_value(d) <= usize::MAX {
        Some(decimal_value(d) as usize)
    } else {
        None
    }
}

/// The decimal value of digits is at least the value of any first part of
/// them.
proof fn lemma_decimal_prefix(d: Seq<char>, k: int)
    requires
        0 <= k <= d.len(),
        forall|i: int| 0 <= i < d.len() ==> #[trigger] is_digit(d[i]),
    ensures
        0 <= decimal_value(d.take(k)) <= decimal_value(d),
    decreases d.len(),
{
    if d.len() > 0 {
        let p = d.drop_last();
        assert forall|i: int| 0 <= i < p.len() implies #[trigger] is_digit(p[i]) by {
            assert(is_digit(d[i]));
        }
        assert(is_digit(d[d.len() - 1]));
        if k == d.len() {
            assert(d.take(k) =~= d);
            lemma_decimal_prefix(p, p.len() as int);
            assert(p.take(p.len() as int) =~= p);
        } else {
            lemma_decimal_prefix(p, k);
            assert(p.take(k) =~= d.take(k));
            lemma_decimal_prefix(p, p.len() as int);
            assert(p.take(p.len() as int) =~= p);
            assert(is_digit(d[d.len() - 1]));
        }
    }
}

/// An ASCII character's byte is its code.
proof fn lemma_ascii_byte(c: char)
    requires
        (c as int) < 128,
    ensures
        (c as u8) as int == c as int,
{
    let x = c as u32;
    assert(x < 128 ==> (x as u8) as u32 == x) by (bit_vector);
}

/// A text with a character outside ASCII spells no number.
proof fn lemma_non_ascii_refused(text: Seq<char>, k: int)
    requires
        0 <= k < text.len(),
        (text[k] as int) < 0 || (text[k] as int) > 127,
    ensures
        parsed_usize(text) is None,
{
    let d = unsigned_digits(text);
    if text.len() > 0 && text[0] == '+' {
        assert(k > 0);
        assert(d[k - 1] == text[k]);
        assert(!is_digit(d[k - 1]));
    } else {
        assert(!is_digit(d[k]));
    }
}

/// Parses an unsigned decimal number, as `str::parse::<usize>` does, with the
/// error dropped.
fn parse_usize(text: &str) -> (parsed: Option<usize>)
    ensures
        parsed == parsed_usize(text@),
{
    if !text.is_ascii() {
        proof {
            assert(!vstd::utf8::is_ascii_chars(text@));
            let k = choose|k: int| 0 <= k < text@.len() && !('\0' <= #[trigger] text@[k] <= '\u{7f}');
            assert((text@[k] as int) < 0 || (text@[k] as int) > 127);
            lemma_non_ascii_refused(text@, k);
        }
        return None;
    }
    let bytes = text.as_bytes();
    let ghost t = text@;
    proof {
        vstd::string::is_ascii_spec_bytes(text);
        vstd::utf8::is_ascii_chars_nat_bound(t);
    }
    assert(bytes@ =~= Seq::new(t.len(), |i: int| t[i] as u8));
    let n = bytes.len();
    let start: usize = if n > 0 && bytes[0] == 43 { 1 } else { 0 };
    let ghost d = unsigned_digits(t);
    assert(d =~= t.subrange(start as int, n as int)) by {
        if n > 0 {
            lemma_ascii_byte(t[0]);
        }
    }
    if start == n {
        return None;
    }
    let mut value: usize = 0;
    let mut i: usize = start;
    while i < n
        invariant
            start <= i <= n,
            n == t.len(),
            t == text@,
            d == t.subrange(start as int, n as int),
            d == unsigned_digits(t),
            bytes@ == Seq::new(t.len(), |j: int| t[j] as u8),
            forall|j: int| 0 <= j < t.len() ==> (t[j] as int) < 128,
            forall|j: int| 0 <= j < i - start ==> #[trigger] is_digit(d[j]),
            value == decimal_value(d.take(i - start)),
        decreases n - i,
    {
        let b = bytes[i];
        proof {
            lemma_ascii_byte(t[i as int]);
        }
        assert(b as int == t[i as int] as int);
        assert(d[i - start] == t[i as int]);
        if b < 48 || b > 57 {
            assert(!is_digit(d[i - start]));
            return None;
        }
        let digit: usize = (b - 48) as usize;
        assert(d.take(i - start + 1).drop_last() =~= d.take(i - start));
        assert(decimal_value(d.take(i - start + 1)) == value * 10 + digit);
        if value > (usize::MAX - digit) / 10 {
            proof {
                assert(value * 10 + digit > usize::MAX) by (nonlinear_arith)
                    requires
                        value > (usize::MAX - digit) / 10,
                        digit <= 9,
                ;
                if forall|j: int| 0 <= j < d.len() ==> #[trigger] is_digit(d[j]) {
                    lemma_decimal_prefix(d, i - start + 1);
                }
            }
            return None;
        }
        assert(value * 10 + digit <= usize::MAX) by (nonlinear_arith)
            requires
                value <= (usize::MAX - digit) / 10,
                digit <= 9,
        ;
        value = value * 10 + digit;
        i += 1;
    }
    assert(d.take(n - start) =~= d);
    Some(value)
}

/// What a raw setting parses to, if it is given and parses.
pub open spec fn parsed_setting(raw: Option<&str>) -> Option<usize> {
    match raw {
        Some(text) => parsed_usize(text@),
        None => None,
    }
}

/// The parsed value, or the default when there is none.
pub open spec fn value_or(parsed: Option<usize>, default: usize) -> usize {
    match parsed {
        Some(v) => v,
        None => default,
    }
}

/// The parsed value, or the default when there is none, raised to `min` when
/// it is below.
pub open spec fn value_at_least(parsed: Option<usize>, default: usize, min: usize) -> usize {
    if value_or(parsed, default) < min { min } else { value_or(parsed, default) }
}

/// The parsed value, or the default when there is none, clamped to
/// `min..=max`.
pub open spec fn value_clamped(parsed: Option<usize>, default: usize, min: usize, max: usize) -> usize {
    if value_or(parsed, default) < min {
        min
    } else if value_or(parsed, default) > max {
        max
    } else {
        value_or(parsed, default)
    }
}

/// Takes the parsed value of a setting, or the default when there is none.
pub fn resolve_default(parsed: Option<usize>, default: usize) -> (value: usize)
    ensures
        value == value_or(parsed, default),
{
    match parsed {
        Some(v) => v,
        None => default,
    }
}

/// Takes the parsed value of a setting, or the default when there is none,
/// and raises it to `min` when it is below.
pub fn resolve_min(parsed: Option<usize>, default: usize, min: usize) -> (value: usize)
    ensures
        value == value_at_least(parsed, default, min),
{
    let value = match parsed {
        Some(v) => v,
        None => default,
    };
    if value < min { min } else { value }
}

/// Takes the parsed value of a setting, or the default when there is none, and
/// clamps it to `min..=max`.
pub fn resolve_clamped(parsed: Option<usize>, default: usize, min: usize, max: usize) -> (value: usize)
    requires
        min <= max,
    ensures
        value == value_clamped(parsed, default, min, max),
{
    let value = match parsed {
        Some(v) => v,
        None => default,
    };
    if value < min {
        min
    } else if value > max {
        max
    } else {
        value
    }
}

/// Reads a setting from the text of its environment variable (`None` when the
/// variable is unset), falling back to the default when it does not parse.
pub fn env_parse(raw: Option<&str>, default: usize) -> (value: usize)
    ensures
        value == value_or(parsed_setting(raw), default),
{
    let parsed = match raw {
        Some(text) => parse_usize(text),
        None => None,
    };
    resolve_default(parsed, default)
}

/// Reads a setting as `env_parse` does and raises it to `min` when it is below.
pub fn env_parse_min(raw: Option<&str>, default: usize, min: usize) -> (value: usize)
    ensures
        value == value_at_least(parsed_setting(raw), default, min),
{
    let parsed = match raw {
        Some(text) => parse_usize(text),
        None => None,
    };
    resolve_min(parsed, default, min)
}

/// Reads a setting as `env_parse` does and clamps it to `min..=max`.
pub fn env_parse_clamped(raw: Option<&str>, default: usize, min: usize, max: usize) -> (value: usize)
    requires
        min <= max,
    ensures
        value == value_clamped(parsed_setting(raw), default, min, max),
{
    let parsed = match raw {
        Some(text) => parse_usize(text),
        None => None,
    };
    resolve_clamped(parsed, default, min, max)
}

/// `c` in ASCII lower case: 'A' to 'Z' become 'a' to 'z', every other
/// character stays as it is.
pub open spec fn ascii_lower(c: char) -> char {
    if 65 <= (c as int) && (c as int) <= 90 {
        ((c as int) + 32) as char
    } else {
        c
    }
}

/// `str::to_ascii_lowercase`: a copy of the text in which 'A' to 'Z' are mapped
/// to 'a' to 'z' and every other character is unchanged, as std documents it.
#[verifier::external_body]
fn ascii_lowercase(text: &str) -> (lower: String)
    ensures
        lower@ == text@.map_values(|c: char| ascii_lower(c)),
{
    text.to_ascii_lowercase()
}

/// Whether the text is exactly `word`.
fn is_word(text: &String, word: &str) -> (same: bool)
    ensures
        same == (text@ == word@),
{
    let w: String = word.to_owned();
    *text == w
}

/// What the text of a flag says: "1", "true", "yes" and "on" mean `true`, "0",
/// "false", "no" and "off" mean `false`, in any mix of cases; any other text
/// says nothing.
pub open spec fn flag_value(text: Seq<char>) -> Option<bool> {
    let w = text.map_values(|c: char| ascii_lower(c));
    if w == seq!['1'] || w == seq!['t', 'r', 'u', 'e'] || w == seq!['y', 'e', 's'] || w == seq!['o', 'n'] {
        Some(true)
    } else if w == seq!['0'] || w == seq!['f', 'a', 'l', 's', 'e'] || w == seq!['n', 'o'] || w == seq!['o', 'f', 'f'] {
        Some(false)
    } else {
        None
    }
}

/// Reads the text of a flag; `None` when it is none of the words for on or off.
pub fn parse_flag(text: &str) -> (flag: Option<bool>)
    ensures
        flag == flag_value(text@),
{
    let lower = ascii_lowercase(text);
    proof {
        reveal_strlit("1");
        reveal_strlit("true");
        reveal_strlit("yes");
        reveal_strlit("on");
        reveal_strlit("0");
        reveal_strlit("false");
        reveal_strlit("no");
        reveal_strlit("off");
        assert("1"@ =~= seq!['1']);
        assert("true"@ =~= seq!['t', 'r', 'u', 'e']);
        assert("yes"@ =~= seq!['y', 'e', 's']);
        assert("on"@ =~= seq!['o', 'n']);
        assert("0"@ =~= seq!['0']);
        assert("false"@ =~= seq!['f', 'a', 'l', 's', 'e']);
        assert("no"@ =~= seq!['n', 'o']);
        assert("off"@ =~= seq!['o', 'f', 'f']);
    }
    if is_word(&lower, "1") || is_word(&lower, "true") || is_word(&lower, "yes") || is_word(&lower, "on") {
        Some(true)
    } else if is_word(&lower, "0") || is_word(&lower, "false") || is_word(&lower, "no") || is_word(&lower, "off") {
        Some(false)
    } else {
        None
    }
}

/// Reads a flag from the text of its environment variable (`None` when the
/// variable is unset), falling back to the default when it is unset or says
/// nothing.
pub fn env_parse_bool(raw: Option<&str>, default: bool) -> (value: bool)
    ensures
        value == match raw {
            Some(text) => match flag_value(text@) {
                Some(b) => b,
                None => default,
            },
            None => default,
        },
{
    match raw {
        Some(text) => match parse_flag(text) {
            Some(b) => b,
            None => default,
        },
        None => default,
    }
}

/// The episode, evaluation and logging settings of a training run.
pub struct RunSettings {
    pub min_steps: usize,
    pub max_steps_cap: usize,
    pub episodes: usize,
    pub num_envs: usize,
    pub learning_starts: usize,
    pub max_scramble: usize,
    pub eval_every: usize,
    pub eval_episodes: usize,
    pub log_every: usize,
    pub save_every: usize,
}

/// Reads the run settings from the texts of their environment variables
/// (`None` for an unset one), each with its default and, where it has one, its
/// minimum; the step cap is at least the minimum step count.
pub fn settings_from_texts(
    min_steps: Option<&str>,
    max_steps_cap: Option<&str>,
    episodes: Option<&str>,
    num_envs: Option<&str>,
    learning_starts: Option<&str>,
    max_scramble: Option<&str>,
    eval_every: Option<&str>,
    eval_episodes: Option<&str>,
    log_every: Option<&str>,
    save_every: Option<&str>,
) -> (s: RunSettings)
    ensures
        s.min_steps == value_at_least(parsed_setting(min_steps), 3, 1),
        s.max_steps_cap == value_at_least(parsed_setting(max_steps_cap), 40, s.min_steps),
        s.episodes == value_at_least(parsed_setting(episodes), 50_000, 1),
        s.num_envs == value_at_least(parsed_setting(num_envs), 16, 1),
        s.learning_starts == value_or(parsed_setting(learning_starts), 5_000),
        s.max_scramble == value_at_least(parsed_setting(max_scramble), 20, 1),
        s.eval_every == value_or(parsed_setting(eval_every), 0),
        s.eval_episodes == value_at_least(parsed_setting(eval_episodes), 64, 1),
        s.log_every == value_at_least(parsed_setting(log_every), 1, 1),
        s.save_every == value_at_least(parsed_setting(save_every), 100, 1),
        s.min_steps >= 1,
        s.min_steps <= s.max_steps_cap,
{
    let min_steps = env_parse_min(min_steps, 3, 1);
    let max_steps_cap = env_parse_min(max_steps_cap, 40, min_steps);
    RunSettings {
        min_steps,
        max_steps_cap,
        episodes: env_parse_min(episodes, 50_000, 1),
        num_envs: env_parse_min(num_envs, 16, 1),
        learning_starts: env_parse(learning_starts, 5_000),
        max_scramble: env_parse_min(max_scramble, 20, 1),
        eval_every: env_parse(eval_every, 0),
        eval_episodes: env_parse_min(eval_episodes, 64, 1),
        log_every: env_parse_min(log_every, 1, 1),
        save_every: env_parse_min(save_every, 100, 1),
    }
}

/// The integer settings of the learning schedule: replay buffer and batch
/// sizes, update and copy intervals, and the curriculum.
pub struct ScheduleSettings {
    pub buffer_size: usize,
    pub batch_size: usize,
    pub update_every: usize,
    pub target_network_frequency: usize,
    pub curriculum_threshold: usize,
    pub curriculum_min_episodes: usize,
    pub clear_replay_on_advance: bool,
}

/// Reads the schedule settings from the texts of their environment variables
/// (`None` for an unset one), each with its default and bounds.
pub fn schedule_from_texts(
    buffer_size: Option<&str>,
    batch_size: Option<&str>,
    update_every: Option<&str>,
    target_network_frequency: Option<&str>,
    curriculum_threshold: Option<&str>,
    curriculum_min_episodes: Option<&str>,
    clear_replay_on_advance: Option<&str>,
) -> (s: ScheduleSettings)
    ensures
        s.buffer_size == value_at_least(parsed_setting(buffer_size), 200_000, 1),
        s.batch_size == value_at_least(parsed_setting(batch_size), 256, 1),
        s.update_every == value_at_least(parsed_setting(update_every), 4, 1),
        s.target_network_frequency == value_at_least(parsed_setting(target_network_frequency), 8_000, 1),
        s.curriculum_threshold == value_clamped(parsed_setting(curriculum_threshold), 10, 1, 100),
        s.curriculum_min_episodes == value_at_least(parsed_setting(curriculum_min_episodes), 1, 1),
        s.clear_replay_on_advance == match clear_replay_on_advance {
            Some(text) => match flag_value(text@) {
                Some(b) => b,
                None => false,
            },
            None => false,
        },
{
    ScheduleSettings {
        buffer_size: env_parse_min(buffer_size, 200_000, 1),
        batch_size: env_parse_min(batch_size, 256, 1),
        update_every: env_parse_min(update_every, 4, 1),
        target_network_frequency: env_parse_min(target_network_frequency, 8_000, 1),
        curriculum_threshold: env_parse_clamped(curriculum_threshold, 10, 1, 100),
        curriculum_min_episodes: env_parse_min(curriculum_min_episodes, 1, 1),
        clear_replay_on_advance: env_parse_bool(clear_replay_on_advance, false),
    }
}

/// The settings of a training run.
pub struct TrainingConfig {
    // Run identity
    pub run_name: String,
    pub log_dir: PathBuf,
    pub net_dir: PathBuf,
    // Episode structure
    pub episodes: usize,
    pub num_envs: usize,
    pub learning_starts: usize,
    pub min_steps: usize,
    pub max_steps_cap: usize,
    pub max_scramble: usize,
    // Evaluation
    pub eval_every: usize,
    pub eval_episodes: usize,
    // Logging & saving
    pub log_every: usize,
    pub save_every: usize,
}

impl TrainingConfig {
    /// The step limit of an episode scrambled `scramble_depth` turns deep:
    /// three steps per turn, clamped to `min_steps..=max_steps_cap`.
    pub fn max_steps(&self, scramble_depth: usize) -> (steps: usize)
        requires
            self.min_steps <= self.max_steps_cap,
            scramble_depth * 3 <= usize::MAX,
        ensures
            steps == if scramble_depth * 3 < self.min_steps {
                self.min_steps as int
            } else if scramble_depth * 3 > self.max_steps_cap {
                self.max_steps_cap as int
            } else {
                scramble_depth * 3
            },
    {
        let steps = scramble_depth * 3;
        if steps < self.min_steps {
            self.min_steps
        } else if steps > self.max_steps_cap {
            self.max_steps_cap
        } else {
            steps
        }
    }
}

} // verus!
