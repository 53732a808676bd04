//! The phase scheduler: the fixed-order driver of one simulation run.
//!
//! A run consists of the `Init` jobs once, then one pass per step of
//! `PreIntegrate` jobs, the integration, the `PostIntegrate` jobs, a commit
//! of the step count, and a recorder sample, and finally the `Shutdown` jobs
//! and a recorder flush. The whole run is pinned down by the spec function
//! [`schedule`], which gives the exact sequence of [`Action`]s; an
//! [`Execution`] hands those actions out one at a time, and the host performs
//! each one: it calls the job closures, evaluates the integrator stages, and
//! writes the recorder's output. The host also fixes the step count of the
//! run: a step runs exactly when its start time `dt * step` lies before the
//! end time, so the number of steps is known before the loop starts.
//!
//! Time never drifts: no action carries an accumulated time, only a step
//! count, and the host reconstructs `t = dt * step` from the count at every
//! commit. [`lemma_commit_count`] states that the commit of step `s` carries
//! exactly the count `s + 1`.

use vstd::prelude::*;

verus! {

/// A named stage of a simulation step. Phases run in the fixed order given
/// here; jobs registered under one phase run in registration order.
///
/// `Integrate` is user-schedulable only in manual-stepping mode: when an
/// integrator is installed the integration happens implicitly between
/// `PreIntegrate` and `PostIntegrate`, and no jobs may stand under
/// `Integrate`.
#[derive(Clone, Copy, Debug, PartialEq, Eq, Structural)]
pub enum Phase {
    Init,
    PreIntegrate,
    Integrate,
    PostIntegrate,
    Shutdown,
}

/// The position of `p` in the fixed phase order.
pub open spec fn phase_index(p: Phase) -> int {
    match p {
        Phase::Init => 0,
        Phase::PreIntegrate => 1,
        Phase::Integrate => 2,
        Phase::PostIntegrate => 3,
        Phase::Shutdown => 4,
    }
}

/// The phase's ordinal, for a job table laid out as one slot per phase:
/// the phase set is closed and totally ordered, so a fixed-size table
/// indexed by this ordinal replaces any associative map.
pub fn phase_ordinal(p: Phase) -> (r: usize)
    ensures
        r == phase_index(p),
        r < 5,
{
    match p {
        Phase::Init => 0,
        Phase::PreIntegrate => 1,
        Phase::Integrate => 2,
        Phase::PostIntegrate => 3,
        Phase::Shutdown => 4,
    }
}

/// One thing the host must do next to advance the run.
///
/// Step counts are 0-based while a step is in flight: `Integrate { step: s }`
/// advances the state from time `dt * s` by one `dt`. A `Commit` carries the
/// count *after* the step, so the host sets `t = dt * step` from it and takes
/// the checkpoint copy of the state there.
#[derive(Clone, Copy, Debug, PartialEq, Eq, Structural)]
pub enum Action {
    /// Run the job registered under `phase` at position `index`, passing it
    /// the state and the current clock.
    RunJob { phase: Phase, index: usize },
    /// Advance the state by one full step, from time `dt * step`, through the
    /// installed integrator.
    Integrate { step: u64 },
    /// The step is complete: the step count becomes `step`, the clock is
    /// reconstructed as `t = dt * step`, and the checkpoint copy of the state
    /// is taken.
    Commit { step: u64 },
    /// Sample the recorder against the committed state, at time `dt * step`.
    Sample { step: u64 },
    /// The run is over: write the recorder's rows out.
    Flush,
}

/// The shape of one run: how many jobs stand under each phase, how many
/// steps the loop makes, and whether an integrator and a recorder take part.
#[derive(Clone, Copy, Debug, PartialEq, Eq, Structural)]
pub struct Config {
    pub init_jobs: usize,
    pub pre_jobs: usize,
    pub integrate_jobs: usize,
    pub post_jobs: usize,
    pub shutdown_jobs: usize,
    pub n_steps: u64,
    pub has_integrator: bool,
    pub has_recorder: bool,
}

impl Config {
    /// The job counts leave room for the fixed actions of a step, so every
    /// position within a step fits in `usize`.
    pub open spec fn wf(self) -> bool {
        self.init_jobs + self.pre_jobs + self.integrate_jobs + self.post_jobs
            + self.shutdown_jobs + 3 <= usize::MAX
    }

    /// With an integrator installed the Integrate slot is one action;
    /// otherwise it is the user's Integrate jobs.
    pub open spec fn integrate_len(self) -> int {
        if self.has_integrator {
            1
        } else {
            self.integrate_jobs as int
        }
    }

    /// How many actions one step contributes to the schedule.
    pub open spec fn step_len(self) -> int {
        self.pre_jobs + self.integrate_len() + self.post_jobs + 1 + (
        if self.has_recorder {
            1int
        } else {
            0int
        })
    }

    /// How many jobs stand under `p`.
    pub open spec fn phase_count(self, p: Phase) -> int {
        match p {
            Phase::Init => self.init_jobs as int,
            Phase::PreIntegrate => self.pre_jobs as int,
            Phase::Integrate => self.integrate_jobs as int,
            Phase::PostIntegrate => self.post_jobs as int,
            Phase::Shutdown => self.shutdown_jobs as int,
        }
    }

    /// The sum of all registered jobs.
    pub open spec fn total_jobs(self) -> int {
        self.init_jobs + self.pre_jobs + self.integrate_jobs + self.post_jobs
            + self.shutdown_jobs
    }

    /// Where step `s` begins in the schedule.
    pub open spec fn step_start(self, s: int) -> int {
        self.init_jobs + s * self.step_len()
    }

    /// The schedule position of job `i` of phase `p`; for the per-step
    /// phases, within step `s`.
    pub open spec fn job_position(self, s: int, p: Phase, i: int) -> int {
        match p {
            Phase::Init => i,
            Phase::PreIntegrate => self.step_start(s) + i,
            Phase::Integrate => self.step_start(s) + self.pre_jobs + i,
            Phase::PostIntegrate => self.step_start(s) + self.pre_jobs + self.integrate_len()
                + i,
            Phase::Shutdown => self.step_start(self.n_steps as int) + i,
        }
    }

    /// The schedule position of step `s`'s integration.
    pub open spec fn integrate_position(self, s: int) -> int {
        self.step_start(s) + self.pre_jobs
    }

    /// The schedule position of step `s`'s commit.
    pub open spec fn commit_position(self, s: int) -> int {
        self.step_start(s) + self.pre_jobs + self.integrate_len() + self.post_jobs
    }

    /// The schedule position of step `s`'s recorder sample.
    pub open spec fn sample_position(self, s: int) -> int {
        self.commit_position(s) + 1
    }
}

/// The jobs of phase `p`, in registration order.
pub open spec fn phase_run(p: Phase, n: nat) -> Seq<Action> {
    Seq::new(n, |i: int| Action::RunJob { phase: p, index: i as usize })
}

/// The actions of step `s`: PreIntegrate jobs, the integration (implicit or
/// the user's Integrate jobs), PostIntegrate jobs, the commit of count
/// `s + 1`, and the recorder sample, if a recorder takes part.
pub open spec fn step_actions(cfg: Config, s: int) -> Seq<Action> {
    phase_run(Phase::PreIntegrate, cfg.pre_jobs as nat) + (
    if cfg.has_integrator {
        seq![Action::Integrate { step: s as u64 }]
    } else {
        phase_run(Phase::Integrate, cfg.integrate_jobs as nat)
    }) + phase_run(Phase::PostIntegrate, cfg.post_jobs as nat) + seq![
        Action::Commit { step: (s + 1) as u64 },
    ] + (
    if cfg.has_recorder {
        seq![Action::Sample { step: (s + 1) as u64 }]
    } else {
        Seq::<Action>::empty()
    })
}

/// The first `k` steps of the loop, in order.
pub open spec fn steps_prefix(cfg: Config, k: int) -> Seq<Action>
    decreases k,
{
    if k <= 0 {
        Seq::<Action>::empty()
    } else {
        steps_prefix(cfg, k - 1) + step_actions(cfg, k - 1)
    }
}

/// What follows the loop: the Shutdown jobs and the recorder flush.
pub open spec fn tail_actions(cfg: Config) -> Seq<Action> {
    phase_run(Phase::Shutdown, cfg.shutdown_jobs as nat) + (
    if cfg.has_recorder {
        seq![Action::Flush]
    } else {
        Seq::<Action>::empty()
    })
}

/// The whole run: Init jobs once, then every step in order, then the tail.
pub open spec fn schedule(cfg: Config) -> Seq<Action> {
    phase_run(Phase::Init, cfg.init_jobs as nat) + steps_prefix(cfg, cfg.n_steps as int)
        + tail_actions(cfg)
}

/// The action standing at offset `j` within step `s`, written out by case.
pub open spec fn step_action_at(cfg: Config, s: int, j: int) -> Action {
    if j < cfg.pre_jobs {
        Action::RunJob { phase: Phase::PreIntegrate, index: j as usize }
    } else if j < cfg.pre_jobs + cfg.integrate_len() {
        if cfg.has_integrator {
            Action::Integrate { step: s as u64 }
        } else {
            Action::RunJob { phase: Phase::Integrate, index: (j - cfg.pre_jobs) as usize }
        }
    } else if j < cfg.pre_jobs + cfg.integrate_len() + cfg.post_jobs {
        Action::RunJob {
            phase: Phase::PostIntegrate,
            index: (j - cfg.pre_jobs - cfg.integrate_len()) as usize,
        }
    } else if j == cfg.pre_jobs + cfg.integrate_len() + cfg.post_jobs {
        Action::Commit { step: (s + 1) as u64 }
    } else {
        Action::Sample { step: (s + 1) as u64 }
    }
}

/// One step's actions, resolved position by position.
pub proof fn lemma_step_action_at(cfg: Config, s: int, j: int)
    requires
        cfg.wf(),
        0 <= j < cfg.step_len(),
    ensures
        step_actions(cfg, s).len() == cfg.step_len(),
        step_actions(cfg, s)[j] == step_action_at(cfg, s, j),
{
}

/// The length of the step loop's prefix grows by one step length per step.
pub proof fn lemma_steps_prefix_len(cfg: Config, k: int)
    requires
        cfg.wf(),
        0 <= k,
    ensures
        steps_prefix(cfg, k).len() == k * cfg.step_len(),
    decreases k,
{
    if k > 0 {
        lemma_steps_prefix_len(cfg, k - 1);
        assert(step_actions(cfg, k - 1).len() == cfg.step_len()) by {
            lemma_step_action_at(cfg, k - 1, 0);
        }
        assert((k - 1) * cfg.step_len() + cfg.step_len() == k * cfg.step_len())
            by (nonlinear_arith);
    } else {
        assert(k * cfg.step_len() == 0) by (nonlinear_arith)
            requires
                k == 0,
        ;
    }
}

/// Indexing into the step loop's prefix lands in the step the position names.
pub proof fn lemma_steps_prefix_index(cfg: Config, k: int, s: int, j: int)
    requires
        cfg.wf(),
        0 <= s < k,
        0 <= j < cfg.step_len(),
    ensures
        steps_prefix(cfg, k).len() == k * cfg.step_len(),
        steps_prefix(cfg, k)[s * cfg.step_len() + j] == step_action_at(cfg, s, j),
    decreases k,
{
    lemma_steps_prefix_len(cfg, k);
    lemma_steps_prefix_len(cfg, k - 1);
    lemma_step_action_at(cfg, s, j);
    if s == k - 1 {
        assert(s * cfg.step_len() + j - (k - 1) * cfg.step_len() == j) by (nonlinear_arith)
            requires
                s == k - 1,
        ;
    } else {
        lemma_steps_prefix_index(cfg, k - 1, s, j);
        assert(s * cfg.step_len() + j < (k - 1) * cfg.step_len()) by (nonlinear_arith)
            requires
                0 <= s < k - 1,
                0 <= j < cfg.step_len(),
        ;
    }
}

/// The schedule's total length.
pub proof fn lemma_schedule_len(cfg: Config)
    requires
        cfg.wf(),
    ensures
        schedule(cfg).len() == cfg.init_jobs + cfg.n_steps * cfg.step_len() + cfg.shutdown_jobs
            + (
        if cfg.has_recorder {
            1int
        } else {
            0int
        }),
{
    lemma_steps_prefix_len(cfg, cfg.n_steps as int);
}

/// The schedule resolved inside step `s`: position `step_start(s) + j` holds
/// offset `j` of step `s`.
pub proof fn lemma_schedule_step_index(cfg: Config, s: int, j: int)
    requires
        cfg.wf(),
        0 <= s < cfg.n_steps,
        0 <= j < cfg.step_len(),
    ensures
        schedule(cfg)[cfg.step_start(s) + j] == step_action_at(cfg, s, j),
        0 <= cfg.step_start(s) + j < schedule(cfg).len(),
{
    lemma_schedule_len(cfg);
    lemma_steps_prefix_index(cfg, cfg.n_steps as int, s, j);
    assert(0 <= s * cfg.step_len() + j < cfg.n_steps * cfg.step_len()) by (nonlinear_arith)
        requires
            0 <= s < cfg.n_steps,
            0 <= j < cfg.step_len(),
    ;
}

/// The schedule resolved in the Init segment.
pub proof fn lemma_schedule_init_index(cfg: Config, i: int)
    requires
        cfg.wf(),
        0 <= i < cfg.init_jobs,
    ensures
        schedule(cfg)[i] == (Action::RunJob { phase: Phase::Init, index: i as usize }),
        0 <= i < schedule(cfg).len(),
{
    lemma_schedule_len(cfg);
    assert(0 <= cfg.n_steps * cfg.step_len()) by (nonlinear_arith)
        requires
            cfg.n_steps >= 0,
            cfg.step_len() >= 0,
    ;
}

/// The schedule resolved in the tail: Shutdown jobs, then the flush.
pub proof fn lemma_schedule_tail_index(cfg: Config, i: int)
    requires
        cfg.wf(),
        0 <= i < cfg.shutdown_jobs,
    ensures
        schedule(cfg)[cfg.step_start(cfg.n_steps as int) + i] == (Action::RunJob {
            phase: Phase::Shutdown,
            index: i as usize,
        }),
        0 <= cfg.step_start(cfg.n_steps as int) + i < schedule(cfg).len(),
{
    lemma_schedule_len(cfg);
    lemma_steps_prefix_len(cfg, cfg.n_steps as int);
    assert(0 <= cfg.n_steps * cfg.step_len()) by (nonlinear_arith)
        requires
            cfg.n_steps >= 0,
            cfg.step_len() >= 0,
    ;
}

/// The schedule's flush stands last, right after the Shutdown jobs.
pub proof fn lemma_schedule_flush_index(cfg: Config)
    requires
        cfg.wf(),
        cfg.has_recorder,
    ensures
        schedule(cfg)[cfg.step_start(cfg.n_steps as int) + cfg.shutdown_jobs] == Action::Flush,
        cfg.step_start(cfg.n_steps as int) + cfg.shutdown_jobs + 1 == schedule(cfg).len(),
{
    lemma_schedule_len(cfg);
    lemma_steps_prefix_len(cfg, cfg.n_steps as int);
}

/// The commit actions of a run, in order.
pub open spec fn commits_of(s: Seq<Action>) -> Seq<Action>
    decreases s.len(),
{
    if s.len() == 0 {
        Seq::<Action>::empty()
    } else {
        commits_of(s.drop_last()) + (
        if s.last() is Commit {
            seq![s.last()]
        } else {
            Seq::<Action>::empty()
        })
    }
}

/// Commits project homomorphically over concatenation.
proof fn lemma_commits_distribute(a: Seq<Action>, b: Seq<Action>)
    ensures
        commits_of(a + b) == commits_of(a) + commits_of(b),
    decreases b.len(),
{
    if b.len() == 0 {
        assert(a + b =~= a);
        assert(commits_of(a) + commits_of(b) =~= commits_of(a));
    } else {
        assert((a + b).drop_last() =~= a + b.drop_last());
        lemma_commits_distribute(a, b.drop_last());
        assert((a + b).last() == b.last());
        assert(commits_of(a) + commits_of(b.drop_last()) + (
        if b.last() is Commit {
            seq![b.last()]
        } else {
            Seq::<Action>::empty()
        }) =~= commits_of(a) + commits_of(b));
    }
}

/// One action commits exactly when it is a commit.
proof fn lemma_commits_singleton(a: Action)
    ensures
        commits_of(seq![a]) == (
        if a is Commit {
            seq![a]
        } else {
            Seq::<Action>::empty()
        }),
{
    reveal_with_fuel(commits_of, 2);
    assert(seq![a].drop_last() =~= Seq::<Action>::empty());
    assert(seq![a].last() == a);
    if a is Commit {
        assert(commits_of(seq![a]) =~= seq![a]);
    } else {
        assert(commits_of(seq![a]) =~= Seq::<Action>::empty());
    }
}

/// A run of jobs commits nothing.
proof fn lemma_commits_phase_run(p: Phase, n: nat)
    ensures
        commits_of(phase_run(p, n)) == Seq::<Action>::empty(),
    decreases n,
{
    if n > 0 {
        assert(phase_run(p, n).drop_last() =~= phase_run(p, (n - 1) as nat));
        lemma_commits_phase_run(p, (n - 1) as nat);
        assert(commits_of(phase_run(p, n)) =~= Seq::<Action>::empty());
    }
}

/// One step commits exactly once, with count `s + 1`.
proof fn lemma_commits_step(cfg: Config, s: int)
    ensures
        commits_of(step_actions(cfg, s)) == seq![Action::Commit { step: (s + 1) as u64 }],
{
    let pre = phase_run(Phase::PreIntegrate, cfg.pre_jobs as nat);
    let mid = if cfg.has_integrator {
        seq![Action::Integrate { step: s as u64 }]
    } else {
        phase_run(Phase::Integrate, cfg.integrate_jobs as nat)
    };
    let post = phase_run(Phase::PostIntegrate, cfg.post_jobs as nat);
    let commit = seq![Action::Commit { step: (s + 1) as u64 }];
    let sample = if cfg.has_recorder {
        seq![Action::Sample { step: (s + 1) as u64 }]
    } else {
        Seq::<Action>::empty()
    };
    lemma_commits_phase_run(Phase::PreIntegrate, cfg.pre_jobs as nat);
    lemma_commits_phase_run(Phase::Integrate, cfg.integrate_jobs as nat);
    lemma_commits_phase_run(Phase::PostIntegrate, cfg.post_jobs as nat);
    if cfg.has_integrator {
        lemma_commits_singleton(Action::Integrate { step: s as u64 });
    }
    lemma_commits_singleton(Action::Commit { step: (s + 1) as u64 });
    if cfg.has_recorder {
        lemma_commits_singleton(Action::Sample { step: (s + 1) as u64 });
    }
    assert(commits_of(mid) =~= Seq::<Action>::empty());
    assert(commits_of(commit) =~= commit);
    assert(commits_of(sample) =~= Seq::<Action>::empty());
    lemma_commits_distribute(pre, mid);
    lemma_commits_distribute(pre + mid, post);
    lemma_commits_distribute(pre + mid + post, commit);
    lemma_commits_distribute(pre + mid + post + commit, sample);
    assert(commits_of(step_actions(cfg, s)) =~= commit);
}

/// The first `k` steps commit with counts `1, ..., k`, in order.
proof fn lemma_commits_steps_prefix(cfg: Config, k: int)
    requires
        0 <= k,
    ensures
        commits_of(steps_prefix(cfg, k)) == Seq::new(
            k as nat,
            |i: int| Action::Commit { step: (i + 1) as u64 },
        ),
    decreases k,
{
    let full = Seq::new(k as nat, |i: int| Action::Commit { step: (i + 1) as u64 });
    if k == 0 {
        assert(commits_of(steps_prefix(cfg, 0)) =~= full);
    } else {
        lemma_commits_steps_prefix(cfg, k - 1);
        lemma_commits_step(cfg, k - 1);
        lemma_commits_distribute(steps_prefix(cfg, k - 1), step_actions(cfg, k - 1));
        assert(Seq::new((k - 1) as nat, |i: int| Action::Commit { step: (i + 1) as u64 })
            + seq![Action::Commit { step: k as u64 }] =~= full);
    }
}

/// Global clock law: the commits of a whole run are exactly
/// `Commit { 1 }, Commit { 2 }, ..., Commit { n_steps }`, in order — one
/// commit per step, each carrying its own ordinal. The host's clock reads
/// `t = dt * step` from those counts, so after arbitrarily many steps the
/// time is exactly `dt` times the number of completed steps: reconstruction
/// from the count admits no accumulated drift.
pub proof fn lemma_commit_trace(cfg: Config)
    ensures
        commits_of(schedule(cfg)) == Seq::new(
            cfg.n_steps as nat,
            |i: int| Action::Commit { step: (i + 1) as u64 },
        ),
{
    let init = phase_run(Phase::Init, cfg.init_jobs as nat);
    let steps = steps_prefix(cfg, cfg.n_steps as int);
    let tail = tail_actions(cfg);
    let shutdown = phase_run(Phase::Shutdown, cfg.shutdown_jobs as nat);
    let flush = if cfg.has_recorder {
        seq![Action::Flush]
    } else {
        Seq::<Action>::empty()
    };
    lemma_commits_phase_run(Phase::Init, cfg.init_jobs as nat);
    lemma_commits_phase_run(Phase::Shutdown, cfg.shutdown_jobs as nat);
    lemma_commits_steps_prefix(cfg, cfg.n_steps as int);
    if cfg.has_recorder {
        lemma_commits_singleton(Action::Flush);
    }
    assert(commits_of(flush) =~= Seq::<Action>::empty());
    lemma_commits_distribute(shutdown, flush);
    lemma_commits_distribute(init, steps);
    lemma_commits_distribute(init + steps, tail);
    assert(commits_of(schedule(cfg)) =~= Seq::new(
        cfg.n_steps as nat,
        |i: int| Action::Commit { step: (i + 1) as u64 },
    ));
}

/// The recorder samples of a run, in order.
pub open spec fn samples_of(s: Seq<Action>) -> Seq<Action>
    decreases s.len(),
{
    if s.len() == 0 {
        Seq::<Action>::empty()
    } else {
        samples_of(s.drop_last()) + (
        if s.last() is Sample {
            seq![s.last()]
        } else {
            Seq::<Action>::empty()
        })
    }
}

/// Samples project homomorphically over concatenation.
proof fn lemma_samples_distribute(a: Seq<Action>, b: Seq<Action>)
    ensures
        samples_of(a + b) == samples_of(a) + samples_of(b),
    decreases b.len(),
{
    if b.len() == 0 {
        assert(a + b =~= a);
        assert(samples_of(a) + samples_of(b) =~= samples_of(a));
    } else {
        assert((a + b).drop_last() =~= a + b.drop_last());
        lemma_samples_distribute(a, b.drop_last());
        assert((a + b).last() == b.last());
        assert(samples_of(a) + samples_of(b.drop_last()) + (
        if b.last() is Sample {
            seq![b.last()]
        } else {
            Seq::<Action>::empty()
        }) =~= samples_of(a) + samples_of(b));
    }
}

/// One action samples exactly when it is a sample.
proof fn lemma_samples_singleton(a: Action)
    ensures
        samples_of(seq![a]) == (
        if a is Sample {
            seq![a]
        } else {
            Seq::<Action>::empty()
        }),
{
    reveal_with_fuel(samples_of, 2);
    assert(seq![a].drop_last() =~= Seq::<Action>::empty());
    assert(seq![a].last() == a);
    if a is Sample {
        assert(samples_of(seq![a]) =~= seq![a]);
    } else {
        assert(samples_of(seq![a]) =~= Seq::<Action>::empty());
    }
}

/// A run of jobs samples nothing.
proof fn lemma_samples_phase_run(p: Phase, n: nat)
    ensures
        samples_of(phase_run(p, n)) == Seq::<Action>::empty(),
    decreases n,
{
    if n > 0 {
        assert(phase_run(p, n).drop_last() =~= phase_run(p, (n - 1) as nat));
        lemma_samples_phase_run(p, (n - 1) as nat);
        assert(samples_of(phase_run(p, n)) =~= Seq::<Action>::empty());
    }
}

/// One step samples exactly once when a recorder takes part, with the
/// committed count `s + 1`, and never otherwise.
proof fn lemma_samples_step(cfg: Config, s: int)
    ensures
        samples_of(step_actions(cfg, s)) == (
        if cfg.has_recorder {
            seq![Action::Sample { step: (s + 1) as u64 }]
        } else {
            Seq::<Action>::empty()
        }),
{
    let pre = phase_run(Phase::PreIntegrate, cfg.pre_jobs as nat);
    let mid = if cfg.has_integrator {
        seq![Action::Integrate { step: s as u64 }]
    } else {
        phase_run(Phase::Integrate, cfg.integrate_jobs as nat)
    };
    let post = phase_run(Phase::PostIntegrate, cfg.post_jobs as nat);
    let commit = seq![Action::Commit { step: (s + 1) as u64 }];
    let sample = if cfg.has_recorder {
        seq![Action::Sample { step: (s + 1) as u64 }]
    } else {
        Seq::<Action>::empty()
    };
    lemma_samples_phase_run(Phase::PreIntegrate, cfg.pre_jobs as nat);
    lemma_samples_phase_run(Phase::Integrate, cfg.integrate_jobs as nat);
    lemma_samples_phase_run(Phase::PostIntegrate, cfg.post_jobs as nat);
    if cfg.has_integrator {
        lemma_samples_singleton(Action::Integrate { step: s as u64 });
    }
    lemma_samples_singleton(Action::Commit { step: (s + 1) as u64 });
    if cfg.has_recorder {
        lemma_samples_singleton(Action::Sample { step: (s + 1) as u64 });
    }
    assert(samples_of(mid) =~= Seq::<Action>::empty());
    assert(samples_of(commit) =~= Seq::<Action>::empty());
    assert(samples_of(sample) =~= sample);
    lemma_samples_distribute(pre, mid);
    lemma_samples_distribute(pre + mid, post);
    lemma_samples_distribute(pre + mid + post, commit);
    lemma_samples_distribute(pre + mid + post + commit, sample);
    assert(samples_of(step_actions(cfg, s)) =~= sample);
}

/// The first `k` steps sample with counts `1, ..., k` when a recorder takes
/// part.
proof fn lemma_samples_steps_prefix(cfg: Config, k: int)
    requires
        0 <= k,
    ensures
        samples_of(steps_prefix(cfg, k)) == (
        if cfg.has_recorder {
            Seq::new(k as nat, |i: int| Action::Sample { step: (i + 1) as u64 })
        } else {
            Seq::<Action>::empty()
        }),
    decreases k,
{
    let full = if cfg.has_recorder {
        Seq::new(k as nat, |i: int| Action::Sample { step: (i + 1) as u64 })
    } else {
        Seq::<Action>::empty()
    };
    if k == 0 {
        assert(samples_of(steps_prefix(cfg, 0)) =~= full);
    } else {
        lemma_samples_steps_prefix(cfg, k - 1);
        lemma_samples_step(cfg, k - 1);
        lemma_samples_distribute(steps_prefix(cfg, k - 1), step_actions(cfg, k - 1));
        if cfg.has_recorder {
            assert(Seq::new((k - 1) as nat, |i: int| Action::Sample { step: (i + 1) as u64 })
                + seq![Action::Sample { step: k as u64 }] =~= full);
        } else {
            assert(samples_of(steps_prefix(cfg, k)) =~= full);
        }
    }
}

/// Recorder law: with a recorder attached, the samples of a whole run are
/// exactly `Sample { 1 }, ..., Sample { n_steps }`, in order — one sample
/// per committed step, taken right after the step's commit and never during
/// event refinement, whose sub-steps stand outside the schedule. Without a
/// recorder, a run samples nothing.
pub proof fn lemma_sample_trace(cfg: Config)
    ensures
        samples_of(schedule(cfg)) == (
        if cfg.has_recorder {
            Seq::new(cfg.n_steps as nat, |i: int| Action::Sample { step: (i + 1) as u64 })
        } else {
            Seq::<Action>::empty()
        }),
{
    let init = phase_run(Phase::Init, cfg.init_jobs as nat);
    let steps = steps_prefix(cfg, cfg.n_steps as int);
    let tail = tail_actions(cfg);
    let shutdown = phase_run(Phase::Shutdown, cfg.shutdown_jobs as nat);
    let flush = if cfg.has_recorder {
        seq![Action::Flush]
    } else {
        Seq::<Action>::empty()
    };
    lemma_samples_phase_run(Phase::Init, cfg.init_jobs as nat);
    lemma_samples_phase_run(Phase::Shutdown, cfg.shutdown_jobs as nat);
    lemma_samples_steps_prefix(cfg, cfg.n_steps as int);
    if cfg.has_recorder {
        lemma_samples_singleton(Action::Flush);
    }
    assert(samples_of(flush) =~= Seq::<Action>::empty());
    lemma_samples_distribute(shutdown, flush);
    lemma_samples_distribute(init, steps);
    lemma_samples_distribute(init + steps, tail);
    if cfg.has_recorder {
        assert(samples_of(schedule(cfg)) =~= Seq::new(
            cfg.n_steps as nat,
            |i: int| Action::Sample { step: (i + 1) as u64 },
        ));
    } else {
        assert(samples_of(schedule(cfg)) =~= Seq::<Action>::empty());
    }
}

/// Job ordering law: jobs registered under one phase run in registration
/// order. For positions `i < j` within phase `p`, the schedule holds job `i`
/// at an earlier position than job `j` — on every step, for the per-step
/// phases — so a phase's jobs `A, B, C` run as `A, B, C` and never otherwise.
///
/// `s` names the step for the per-step phases and is ignored for `Init` and
/// `Shutdown`.
#[verifier::rlimit(30)]
pub proof fn lemma_jobs_in_registration_order(cfg: Config, s: int, p: Phase, i: int, j: int)
    requires
        cfg.wf(),
        0 <= i < j < cfg.phase_count(p),
        p == Phase::PreIntegrate || p == Phase::Integrate || p == Phase::PostIntegrate ==> 0
            <= s < cfg.n_steps,
        p == Phase::Integrate ==> !cfg.has_integrator,
    ensures
        schedule(cfg)[cfg.job_position(s, p, i)] == (Action::RunJob {
            phase: p,
            index: i as usize,
        }),
        schedule(cfg)[cfg.job_position(s, p, j)] == (Action::RunJob {
            phase: p,
            index: j as usize,
        }),
        cfg.job_position(s, p, i) < cfg.job_position(s, p, j),
        0 <= cfg.job_position(s, p, i) < schedule(cfg).len(),
        0 <= cfg.job_position(s, p, j) < schedule(cfg).len(),
{
    match p {
        Phase::Init => {
            lemma_schedule_init_index(cfg, i);
            lemma_schedule_init_index(cfg, j);
        },
        Phase::PreIntegrate => {
            lemma_schedule_step_index(cfg, s, i);
            lemma_schedule_step_index(cfg, s, j);
        },
        Phase::Integrate => {
            lemma_schedule_step_index(cfg, s, cfg.pre_jobs + i);
            lemma_schedule_step_index(cfg, s, cfg.pre_jobs + j);
        },
        Phase::PostIntegrate => {
            lemma_schedule_step_index(cfg, s, cfg.pre_jobs + cfg.integrate_len() + i);
            lemma_schedule_step_index(cfg, s, cfg.pre_jobs + cfg.integrate_len() + j);
        },
        Phase::Shutdown => {
            lemma_schedule_tail_index(cfg, i);
            lemma_schedule_tail_index(cfg, j);
        },
    }
}

/// Observation law: with an integrator installed, every `PreIntegrate` job of
/// a step stands before the step's integration and every `PostIntegrate` job
/// after it — so `PostIntegrate` jobs always observe the state after the
/// current step's integration, never before.
pub proof fn lemma_post_jobs_observe_integrated_state(cfg: Config, s: int, i: int)
    requires
        cfg.wf(),
        cfg.has_integrator,
        0 <= s < cfg.n_steps,
        0 <= i < cfg.post_jobs,
    ensures
        schedule(cfg)[cfg.integrate_position(s)] == (Action::Integrate { step: s as u64 }),
        schedule(cfg)[cfg.job_position(s, Phase::PostIntegrate, i)] == (Action::RunJob {
            phase: Phase::PostIntegrate,
            index: i as usize,
        }),
        cfg.integrate_position(s) < cfg.job_position(s, Phase::PostIntegrate, i),
        forall|k: int|
            0 <= k < cfg.pre_jobs ==> cfg.job_position(s, Phase::PreIntegrate, k)
                < cfg.integrate_position(s),
{
    lemma_schedule_step_index(cfg, s, cfg.pre_jobs as int);
    lemma_schedule_step_index(cfg, s, cfg.pre_jobs + cfg.integrate_len() + i);
}

/// Clock law: the commit of step `s` carries exactly the count `s + 1`, and
/// the recorder's sample of the step follows right after it, carrying the
/// same count. The host reconstructs `t = dt * step` from that count at
/// every commit, so after arbitrarily many steps `t` is exactly `dt` times
/// the number of completed steps — time never drifts by accumulation, and
/// the recorder samples each committed step exactly once.
pub proof fn lemma_commit_count(cfg: Config, s: int)
    requires
        cfg.wf(),
        0 <= s < cfg.n_steps,
    ensures
        schedule(cfg)[cfg.commit_position(s)] == (Action::Commit { step: (s + 1) as u64 }),
        cfg.has_recorder ==> schedule(cfg)[cfg.sample_position(s)] == (Action::Sample {
            step: (s + 1) as u64,
        }),
        cfg.step_start(s) <= cfg.commit_position(s) < cfg.step_start(s + 1),
{
    lemma_schedule_step_index(cfg, s, cfg.pre_jobs + cfg.integrate_len() + cfg.post_jobs);
    if cfg.has_recorder {
        lemma_schedule_step_index(
            cfg,
            s,
            cfg.pre_jobs + cfg.integrate_len() + cfg.post_jobs + 1,
        );
    }
    assert((s + 1) * cfg.step_len() == s * cfg.step_len() + cfg.step_len())
        by (nonlinear_arith);
}

/// The registration side of the executor.
///
/// Jobs and collaborators are registered here, before the run; calling
/// [`Scheduler::begin`] consumes the scheduler, so nothing can be added once
/// the run has started — registration is a build-time-only operation.
pub struct Scheduler {
    cfg: Config,
}

impl Scheduler {
    /// The shape built so far.
    pub closed spec fn config(self) -> Config {
        self.cfg
    }

    /// A scheduler for a run of `n_steps` fixed steps, with no jobs, no
    /// integrator and no recorder yet.
    ///
    /// The host fixes `n_steps` from `dt` and the end time: a step runs
    /// exactly when its start time `dt * step` lies before the end time.
    pub fn new(n_steps: u64) -> (r: Self)
        ensures
            r.config() == (Config {
                init_jobs: 0,
                pre_jobs: 0,
                integrate_jobs: 0,
                post_jobs: 0,
                shutdown_jobs: 0,
                n_steps,
                has_integrator: false,
                has_recorder: false,
            }),
    {
        Scheduler {
            cfg: Config {
                init_jobs: 0,
                pre_jobs: 0,
                integrate_jobs: 0,
                post_jobs: 0,
                shutdown_jobs: 0,
                n_steps,
                has_integrator: false,
                has_recorder: false,
            },
        }
    }

    /// Registers one more job under `phase` and returns its position within
    /// that phase: the host keeps the job closures in registration order and
    /// will be told to run them by exactly that position.
    ///
    /// Jobs may not stand under `Integrate` once an integrator is installed:
    /// in that mode the phase is implicit and not user-schedulable.
    pub fn add_job(&mut self, phase: Phase) -> (r: usize)
        requires
            old(self).config().total_jobs() + 3 < usize::MAX,
            phase == Phase::Integrate ==> !old(self).config().has_integrator,
        ensures
            r == old(self).config().phase_count(phase),
            final (self).config().phase_count(phase) == old(self).config().phase_count(phase)
                + 1,
            forall|p: Phase|
                p != phase ==> final (self).config().phase_count(p) == old(
                    self,
                ).config().phase_count(p),
            final (self).config().init_jobs == old(self).config().init_jobs + (
            if phase == Phase::Init {
                1int
            } else {
                0int
            }),
            final (self).config().pre_jobs == old(self).config().pre_jobs + (
            if phase == Phase::PreIntegrate {
                1int
            } else {
                0int
            }),
            final (self).config().integrate_jobs == old(self).config().integrate_jobs + (
            if phase == Phase::Integrate {
                1int
            } else {
                0int
            }),
            final (self).config().post_jobs == old(self).config().post_jobs + (
            if phase == Phase::PostIntegrate {
                1int
            } else {
                0int
            }),
            final (self).config().shutdown_jobs == old(self).config().shutdown_jobs + (
            if phase == Phase::Shutdown {
                1int
            } else {
                0int
            }),
            final (self).config().n_steps == old(self).config().n_steps,
            final (self).config().has_integrator == old(self).config().has_integrator,
            final (self).config().has_recorder == old(self).config().has_recorder,
    {
        match phase {
            Phase::Init => {
                let r = self.cfg.init_jobs;
                self.cfg.init_jobs = self.cfg.init_jobs + 1;
                r
            },
            Phase::PreIntegrate => {
                let r = self.cfg.pre_jobs;
                self.cfg.pre_jobs = self.cfg.pre_jobs + 1;
                r
            },
            Phase::Integrate => {
                let r = self.cfg.integrate_jobs;
                self.cfg.integrate_jobs = self.cfg.integrate_jobs + 1;
                r
            },
            Phase::PostIntegrate => {
                let r = self.cfg.post_jobs;
                self.cfg.post_jobs = self.cfg.post_jobs + 1;
                r
            },
            Phase::Shutdown => {
                let r = self.cfg.shutdown_jobs;
                self.cfg.shutdown_jobs = self.cfg.shutdown_jobs + 1;
                r
            },
        }
    }

    /// Installs the vector integrator. The `Integrate` phase becomes
    /// implicit, so no jobs may already stand under it: a job list under
    /// `Integrate` beside an integrator is a configuration error, rejected
    /// eagerly here rather than silently ignored.
    pub fn set_integrator(&mut self)
        requires
            old(self).config().integrate_jobs == 0,
        ensures
            final (self).config() == (Config { has_integrator: true, ..old(self).config() }),
    {
        self.cfg.has_integrator = true;
    }

    /// Attaches a recorder: every committed step gets a sample, and the run
    /// ends with a flush.
    pub fn set_recorder(&mut self)
        ensures
            final (self).config() == (Config { has_recorder: true, ..old(self).config() }),
    {
        self.cfg.has_recorder = true;
    }

    /// Closes registration and starts the run at its first action.
    pub fn begin(self) -> (r: Execution)
        requires
            self.config().wf(),
        ensures
            r.wf(),
            r.config() == self.config(),
            r.emitted() == 0,
    {
        if self.cfg.init_jobs > 0 {
            Execution { cfg: self.cfg, seg: Segment::Init, step: 0, idx: 0 }
        } else {
            let r = Execution::at_step_start(self.cfg, 0);
            proof {
                assert(0 * self.cfg.step_len() == 0) by (nonlinear_arith);
            }
            r
        }
    }
}

/// Which part of the schedule the cursor stands in.
enum Segment {
    Init,
    Steps,
    Shutdown,
    Flush,
    Done,
}

/// A run in progress: a cursor over [`schedule`]`(cfg)`.
///
/// [`Execution::next_action`] hands out exactly the schedule's actions, in
/// order, then `None`; the host performs each action as it comes. The cursor
/// holds no times — only the step count — so the host reconstructs the clock
/// from counts alone.
pub struct Execution {
    cfg: Config,
    seg: Segment,
    step: u64,
    idx: usize,
}

impl Execution {
    /// The shape of the run.
    pub closed spec fn config(self) -> Config {
        self.cfg
    }

    /// How many actions of the schedule have been handed out.
    pub closed spec fn emitted(self) -> int {
        match self.seg {
            Segment::Init => self.idx as int,
            Segment::Steps => self.cfg.step_start(self.step as int) + self.idx,
            Segment::Shutdown => self.cfg.step_start(self.cfg.n_steps as int) + self.idx,
            Segment::Flush => self.cfg.step_start(self.cfg.n_steps as int)
                + self.cfg.shutdown_jobs,
            Segment::Done => schedule(self.cfg).len() as int,
        }
    }

    /// The cursor stands on an action still to hand out, or at the end.
    pub closed spec fn wf(self) -> bool {
        self.cfg.wf() && match self.seg {
            Segment::Init => self.idx < self.cfg.init_jobs,
            Segment::Steps => self.step < self.cfg.n_steps && self.idx < self.cfg.step_len(),
            Segment::Shutdown => self.idx < self.cfg.shutdown_jobs,
            Segment::Flush => self.cfg.has_recorder,
            Segment::Done => true,
        }
    }

    /// Whether every action has been handed out.
    pub open spec fn is_done(self) -> bool {
        self.emitted() == schedule(self.config()).len()
    }

    /// A cursor at the start of step `k`, or past the loop when `k` is the
    /// step count.
    fn at_step_start(cfg: Config, k: u64) -> (r: Execution)
        requires
            cfg.wf(),
            k <= cfg.n_steps,
        ensures
            r.wf(),
            r.config() == cfg,
            r.emitted() == cfg.step_start(k as int),
    {
        if k < cfg.n_steps {
            proof {
                lemma_step_action_at(cfg, k as int, 0);
            }
            Execution { cfg, seg: Segment::Steps, step: k, idx: 0 }
        } else {
            Execution::at_shutdown_start(cfg)
        }
    }

    /// A cursor at the start of the tail: the Shutdown jobs, the flush, or
    /// the end.
    fn at_shutdown_start(cfg: Config) -> (r: Execution)
        requires
            cfg.wf(),
        ensures
            r.wf(),
            r.config() == cfg,
            r.emitted() == cfg.step_start(cfg.n_steps as int),
    {
        proof {
            lemma_schedule_len(cfg);
        }
        if cfg.shutdown_jobs > 0 {
            Execution { cfg, seg: Segment::Shutdown, step: 0, idx: 0 }
        } else if cfg.has_recorder {
            Execution { cfg, seg: Segment::Flush, step: 0, idx: 0 }
        } else {
            Execution { cfg, seg: Segment::Done, step: 0, idx: 0 }
        }
    }

    /// Hands out the next action of the schedule, or `None` once the run is
    /// over.
    ///
    /// The action returned is exactly the one the schedule holds at the
    /// cursor's position; the cursor moves forward by one. After the last
    /// action the cursor stays at the end and every further call returns
    /// `None`.
    pub fn next_action(&mut self) -> (r: Option<Action>)
        requires
            old(self).wf(),
        ensures
            final (self).wf(),
            final (self).config() == old(self).config(),
            old(self).is_done() ==> r is None && final (self).emitted() == old(self).emitted(),
            !old(self).is_done() ==> r == Some(
                schedule(old(self).config())[old(self).emitted()],
            ) && final (self).emitted() == old(self).emitted() + 1,
    {
        proof {
            lemma_schedule_len(self.cfg);
        }
        match self.seg {
            Segment::Done => None,
            Segment::Init => {
                proof {
                    lemma_schedule_init_index(self.cfg, self.idx as int);
                }
                let a = Action::RunJob { phase: Phase::Init, index: self.idx };
                if self.idx + 1 < self.cfg.init_jobs {
                    self.idx = self.idx + 1;
                } else {
                    let next = Execution::at_step_start(self.cfg, 0);
                    proof {
                        assert(0 * self.cfg.step_len() == 0) by (nonlinear_arith);
                    }
                    *self = next;
                }
                Some(a)
            },
            Segment::Steps => {
                let cfg = self.cfg;
                let s = self.step;
                let j = self.idx;
                proof {
                    lemma_schedule_step_index(cfg, s as int, j as int);
                }
                let ilen: usize = if cfg.has_integrator {
                    1
                } else {
                    cfg.integrate_jobs
                };
                let a = if j < cfg.pre_jobs {
                    Action::RunJob { phase: Phase::PreIntegrate, index: j }
                } else if j < cfg.pre_jobs + ilen {
                    if cfg.has_integrator {
                        Action::Integrate { step: s }
                    } else {
                        Action::RunJob { phase: Phase::Integrate, index: j - cfg.pre_jobs }
                    }
                } else if j < cfg.pre_jobs + ilen + cfg.post_jobs {
                    Action::RunJob {
                        phase: Phase::PostIntegrate,
                        index: j - cfg.pre_jobs - ilen,
                    }
                } else if j == cfg.pre_jobs + ilen + cfg.post_jobs {
                    Action::Commit { step: s + 1 }
                } else {
                    Action::Sample { step: s + 1 }
                };
                let step_len: usize = cfg.pre_jobs + ilen + cfg.post_jobs + 1 + (
                if cfg.has_recorder {
                    1
                } else {
                    0
                });
                if j + 1 < step_len {
                    self.idx = j + 1;
                } else {
                    let next = Execution::at_step_start(cfg, s + 1);
                    proof {
                        assert((s + 1) * cfg.step_len() == s * cfg.step_len()
                            + cfg.step_len()) by (nonlinear_arith);
                    }
                    *self = next;
                }
                Some(a)
            },
            Segment::Shutdown => {
                proof {
                    lemma_schedule_tail_index(self.cfg, self.idx as int);
                }
                let a = Action::RunJob { phase: Phase::Shutdown, index: self.idx };
                if self.idx + 1 < self.cfg.shutdown_jobs {
                    self.idx = self.idx + 1;
                } else if self.cfg.has_recorder {
                    self.seg = Segment::Flush;
                } else {
                    self.seg = Segment::Done;
                }
                Some(a)
            },
            Segment::Flush => {
                proof {
                    lemma_schedule_flush_index(self.cfg);
                }
                self.seg = Segment::Done;
                Some(Action::Flush)
            },
        }
    }
}

} // verus!
