//! The decisions of the training loop that do not depend on the network:
//! when to learn, when to copy the critics, and how the scramble depth of the
//! curriculum grows.
use vstd::prelude::*;

verus! {

/// The number of recent episodes over which the solve rate is measured.
pub const SOLVE_WINDOW: usize = 100;

/// `n` is a multiple of `m`, as `usize::is_multiple_of` has it: only 0 is a
/// multiple of 0.
pub open spec fn multiple_of(n: int, m: int) -> bool {
    if m == 0 { n == 0 } else { n % m == 0 }
}

/// Whether `n` is a multiple of `m` (only 0 is a multiple of 0).
pub fn is_multiple(n: usize, m: usize) -> (b: bool)
    ensures
        b == multiple_of(n as int, m as int),
{
    if m == 0 { n == 0 } else { n % m == 0 }
}

/// A learning update is due once learning has started, the replay buffer holds
/// a full batch, and the step count is a multiple of the update interval.
pub fn should_update(env_steps: usize, learning_starts: usize, replay_len: usize, batch_size: usize, update_every: usize) -> (due: bool)
    ensures
        due == (env_steps > learning_starts && replay_len >= batch_size && multiple_of(env_steps as int, update_every as int)),
{
    env_steps > learning_starts && replay_len >= batch_size && is_multiple(env_steps, update_every)
}

/// Copying the critics into the target critics is due once learning has
/// started and the step count is a multiple of the copy interval.
pub fn should_sync_targets(env_steps: usize, learning_starts: usize, target_network_frequency: usize) -> (due: bool)
    ensures
        due == (env_steps > learning_starts && multiple_of(env_steps as int, target_network_frequency as int)),
{
    env_steps > learning_starts && is_multiple(env_steps, target_network_frequency)
}

/// Counts another update towards the next metrics extraction: returns the new
/// count and whether metrics are extracted now (which restarts the count).
pub fn tick_metrics(updates_since_metrics: usize, every: usize) -> (r: (usize, bool))
    requires
        updates_since_metrics < usize::MAX,
    ensures
        r.1 == (updates_since_metrics + 1 >= every),
        r.0 == if r.1 { 0 } else { updates_since_metrics + 1 },
{
    let count = updates_since_metrics + 1;
    if count >= every { (0, true) } else { (count, false) }
}

/// Until learning starts, actions are drawn at random instead of from the
/// policy.
pub fn acts_at_random(env_steps: usize, learning_starts: usize) -> (random: bool)
    ensures
        random == (env_steps < learning_starts),
{
    env_steps < learning_starts
}

/// What is due once an episode ends: an evaluation, a log entry, and a save of
/// the networks.
pub struct EpisodeEndDuties {
    pub evaluate: bool,
    pub log: bool,
    pub save: bool,
}

/// When `completed` episodes have ended: an evaluation is due when evaluations
/// are on and the count is a multiple of their interval; a log entry when there
/// are update metrics to report and the count is a multiple of the log
/// interval; a save when the count is a multiple of the save interval.
pub fn episode_end_duties(
    completed: usize,
    eval_every: usize,
    log_every: usize,
    save_every: usize,
    has_update_metrics: bool,
) -> (d: EpisodeEndDuties)
    ensures
        d.evaluate == (eval_every > 0 && multiple_of(completed as int, eval_every as int)),
        d.log == (has_update_metrics && multiple_of(completed as int, log_every as int)),
        d.save == multiple_of(completed as int, save_every as int),
{
    EpisodeEndDuties {
        evaluate: eval_every > 0 && is_multiple(completed, eval_every),
        log: has_update_metrics && is_multiple(completed, log_every),
        save: is_multiple(completed, save_every),
    }
}

/// The environments to start anew when the episode of environment `ended`
/// ends: every one of the `num_envs` when the curriculum has just moved to a
/// new depth, else only that one.
pub fn envs_to_reset(advanced: bool, ended: usize, num_envs: usize) -> (envs: Vec<usize>)
    requires
        ended < num_envs,
    ensures
        envs@ == if advanced { Seq::new(num_envs as nat, |i: int| i as usize) } else { seq![ended] },
{
    let mut envs: Vec<usize> = Vec::new();
    if advanced {
        let mut i: usize = 0;
        while i < num_envs
            invariant
                i <= num_envs,
                envs@ == Seq::new(i as nat, |j: int| j as usize),
            decreases num_envs - i,
        {
            envs.push(i);
            i += 1;
        }
    } else {
        envs.push(ended);
    }
    envs
}

/// The number of `true` entries among the first `n` of `s`.
pub open spec fn count_true(s: Seq<bool>, n: int) -> nat
    decreases n,
{
    if n <= 0 {
        0
    } else {
        count_true(s, n - 1) + if s[n - 1] { 1nat } else { 0nat }
    }
}

/// The curriculum: the scramble depth, how many episodes ended at this depth,
/// how many ended in all, whether the curriculum has started, and which of the
/// recent episodes at this depth were solved.
pub struct Curriculum {
    scramble_depth: usize,
    episodes_at_depth: usize,
    completed_episodes: usize,
    active: bool,
    recent_solves: [bool; 100],
}

impl Curriculum {
    /// The scramble depth.
    pub closed spec fn depth(self) -> usize {
        self.scramble_depth
    }

    /// The number of episodes that ended at the current depth.
    pub closed spec fn at_depth(self) -> usize {
        self.episodes_at_depth
    }

    /// The number of episodes that ended.
    pub closed spec fn completed(self) -> usize {
        self.completed_episodes
    }

    /// Whether the curriculum has started advancing.
    pub closed spec fn is_active(self) -> bool {
        self.active
    }

    /// Which recent episodes at this depth were solved; episode `e` is in slot
    /// `e % 100`.
    pub closed spec fn window(self) -> Seq<bool> {
        self.recent_solves@
    }

    /// A curriculum at depth 1; it is active from the start when learning
    /// starts at once.
    pub fn new(learning_starts: usize) -> (c: Self)
        ensures
            c.depth() == 1,
            c.at_depth() == 0,
            c.completed() == 0,
            c.is_active() == (learning_starts == 0),
            c.window() == Seq::new(SOLVE_WINDOW as nat, |i: int| false),
    {
        let c = Curriculum {
            scramble_depth: 1,
            episodes_at_depth: 0,
            completed_episodes: 0,
            active: learning_starts == 0,
            recent_solves: [false; 100],
        };
        assert(c.recent_solves@ =~= Seq::new(SOLVE_WINDOW as nat, |i: int| false));
        c
    }

    /// The scramble depth.
    pub fn scramble_depth(&self) -> (d: usize)
        ensures
            d == self.depth(),
    {
        self.scramble_depth
    }

    /// The number of episodes that ended.
    pub fn completed_episodes(&self) -> (n: usize)
        ensures
            n == self.completed(),
    {
        self.completed_episodes
    }

    /// The number of episodes that ended at the current depth.
    pub fn episodes_at_depth(&self) -> (n: usize)
        ensures
            n == self.at_depth(),
    {
        self.episodes_at_depth
    }

    /// Records the end of an episode, starts the curriculum once learning has
    /// started, and returns how many of the recent episodes were solved.
    pub fn record_episode(&mut self, solved: bool, env_steps: usize, learning_starts: usize) -> (solves: usize)
        requires
            old(self).at_depth() < usize::MAX,
            old(self).completed() < usize::MAX,
        ensures
            final(self).completed() == old(self).completed() + 1,
            final(self).depth() == old(self).depth(),
            ({
                let starts = !old(self).is_active() && env_steps > learning_starts;
                &&& final(self).is_active() == (old(self).is_active() || env_steps > learning_starts)
                &&& final(self).at_depth() == if starts { 0 } else { old(self).at_depth() + 1 }
                &&& final(self).window() == if starts {
                    Seq::new(SOLVE_WINDOW as nat, |i: int| false)
                } else {
                    old(self).window().update((old(self).at_depth() % 100) as int, solved)
                }
            }),
            solves == count_true(final(self).window(), 100),
            solves <= SOLVE_WINDOW,
    {
        let slot = self.episodes_at_depth % SOLVE_WINDOW;
        self.recent_solves[slot] = solved;
        self.episodes_at_depth += 1;
        self.completed_episodes += 1;
        if !self.active && env_steps > learning_starts {
            self.active = true;
            self.episodes_at_depth = 0;
            self.recent_solves = [false; 100];
            assert(self.recent_solves@ =~= Seq::new(SOLVE_WINDOW as nat, |i: int| false));
        }
        let mut solves: usize = 0;
        let mut i: usize = 0;
        while i < SOLVE_WINDOW
            invariant
                i <= 100,
                solves == count_true(self.recent_solves@, i as int),
                solves <= i,
            decreases 100 - i,
        {
            if self.recent_solves[i] {
                solves += 1;
            }
            i += 1;
        }
        solves
    }

    /// Moves to the next scramble depth when the curriculum is active, enough
    /// recent episodes were solved, enough episodes ended at this depth, and the
    /// depth is below the maximum; returns whether it moved.
    pub fn try_advance(&mut self, recent_solves: usize, threshold: usize, min_episodes: usize, max_scramble: usize) -> (advanced: bool)
        ensures
            advanced == (old(self).is_active() && recent_solves >= threshold && old(self).at_depth() >= min_episodes
                && old(self).depth() < max_scramble),
            final(self).completed() == old(self).completed(),
            final(self).is_active() == old(self).is_active(),
            final(self).depth() == if advanced { old(self).depth() + 1 } else { old(self).depth() as int },
            final(self).at_depth() == if advanced { 0 } else { old(self).at_depth() },
            final(self).window() == if advanced {
                Seq::new(SOLVE_WINDOW as nat, |i: int| false)
            } else {
                old(self).window()
            },
    {
        if self.active && recent_solves >= threshold && self.episodes_at_depth >= min_episodes
            && self.scramble_depth < max_scramble {
            self.scramble_depth += 1;
            self.episodes_at_depth = 0;
            self.recent_solves = [false; 100];
            assert(self.recent_solves@ =~= Seq::new(SOLVE_WINDOW as nat, |i: int| false));
            true
        } else {
            false
        }
    }
}

/// What to do with an environment after a step of an evaluation.
#[derive(Clone, Copy, Debug, PartialEq, Eq, Structural)]
pub enum EvalNext {
    /// The episode goes on.
    Continue,
    /// The episode ended and more are owed: start a new one.
    Reset,
    /// The episode ended and it was the last one owed.
    Finish,
}

/// The tally of an evaluation run: how many episodes are owed, how many
/// ended, how many of those were solved, and how many steps were taken.
pub struct EvalTally {
    episodes: usize,
    completed: usize,
    solves: usize,
    steps: usize,
}

impl EvalTally {
    /// The number of episodes owed.
    pub closed spec fn owed(self) -> usize {
        self.episodes
    }

    /// The number of episodes that ended.
    pub closed spec fn ended(self) -> usize {
        self.completed
    }

    /// The number of episodes that ended solved.
    pub closed spec fn solved(self) -> usize {
        self.solves
    }

    /// The number of steps taken.
    pub closed spec fn taken(self) -> usize {
        self.steps
    }

    /// Every solved episode ended, and every ended episode took a step.
    pub closed spec fn wf(self) -> bool {
        self.solves <= self.completed <= self.steps
    }

    /// A tally of nothing yet, owing `episodes` episodes.
    pub fn new(episodes: usize) -> (tally: Self)
        ensures
            tally.wf(),
            tally.owed() == episodes,
            tally.ended() == 0,
            tally.solved() == 0,
            tally.taken() == 0,
    {
        EvalTally { episodes, completed: 0, solves: 0, steps: 0 }
    }

    /// Whether fewer episodes ended than are owed.
    pub fn running(&self) -> (more: bool)
        ensures
            more == (self.ended() < self.owed()),
    {
        self.completed < self.episodes
    }

    /// Counts a step: a solved cube counts a solve, and a solved or cut-short
    /// episode counts as ended; says whether to go on, start a new episode, or
    /// stop because the last owed episode ended.
    pub fn record_step(&mut self, terminated: bool, truncated: bool) -> (next: EvalNext)
        requires
            old(self).wf(),
            old(self).taken() < usize::MAX,
        ensures
            final(self).wf(),
            final(self).owed() == old(self).owed(),
            final(self).taken() == old(self).taken() + 1,
            final(self).solved() == old(self).solved() + if terminated { 1int } else { 0int },
            final(self).ended() == old(self).ended() + if terminated || truncated { 1int } else { 0int },
            next == if !(terminated || truncated) {
                EvalNext::Continue
            } else if final(self).ended() >= final(self).owed() {
                EvalNext::Finish
            } else {
                EvalNext::Reset
            },
    {
        self.steps += 1;
        if terminated {
            self.solves += 1;
        }
        if terminated || truncated {
            self.completed += 1;
            if self.completed >= self.episodes {
                EvalNext::Finish
            } else {
                EvalNext::Reset
            }
        } else {
            EvalNext::Continue
        }
    }

    /// The number of episodes that ended solved.
    pub fn solve_count(&self) -> (n: usize)
        ensures
            n == self.solved(),
    {
        self.solves
    }

    /// The number of steps taken.
    pub fn step_count(&self) -> (n: usize)
        ensures
            n == self.taken(),
    {
        self.steps
    }
}

} // verus!
