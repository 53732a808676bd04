use simlib::executor::phase_ordinal;
use simlib::Action;
use simlib::Phase;
use simlib::Scheduler;

/// Collects every action of a run.
fn collect(mut run: simlib::Execution) -> Vec<Action> {
    let mut actions = Vec::new();
    while let Some(a) = run.next_action() {
        actions.push(a);
    }
    actions
}

#[test]
fn schedule_order_full_run() {
    let mut s = Scheduler::new(2);
    assert_eq!(s.add_job(Phase::Init), 0);
    assert_eq!(s.add_job(Phase::PreIntegrate), 0);
    assert_eq!(s.add_job(Phase::PreIntegrate), 1);
    assert_eq!(s.add_job(Phase::PreIntegrate), 2);
    assert_eq!(s.add_job(Phase::PostIntegrate), 0);
    assert_eq!(s.add_job(Phase::Shutdown), 0);
    s.set_integrator();
    s.set_recorder();

    let actions = collect(s.begin());
    let mut expected = vec![Action::RunJob { phase: Phase::Init, index: 0 }];
    for step in 0..2u64 {
        expected.push(Action::RunJob { phase: Phase::PreIntegrate, index: 0 });
        expected.push(Action::RunJob { phase: Phase::PreIntegrate, index: 1 });
        expected.push(Action::RunJob { phase: Phase::PreIntegrate, index: 2 });
        expected.push(Action::Integrate { step });
        expected.push(Action::RunJob { phase: Phase::PostIntegrate, index: 0 });
        expected.push(Action::Commit { step: step + 1 });
        expected.push(Action::Sample { step: step + 1 });
    }
    expected.push(Action::RunJob { phase: Phase::Shutdown, index: 0 });
    expected.push(Action::Flush);
    assert_eq!(actions, expected);
}

#[test]
fn jobs_run_in_registration_order() {
    // Three jobs A, B, C under one phase must run as A, B, C on every step.
    let mut s = Scheduler::new(3);
    let a = s.add_job(Phase::PreIntegrate);
    let b = s.add_job(Phase::PreIntegrate);
    let c = s.add_job(Phase::PreIntegrate);
    assert_eq!((a, b, c), (0, 1, 2));
    s.set_integrator();

    let actions = collect(s.begin());
    let pre_indices: Vec<usize> = actions
        .iter()
        .filter_map(|act| match act {
            Action::RunJob { phase: Phase::PreIntegrate, index } => Some(*index),
            _ => None,
        })
        .collect();
    assert_eq!(pre_indices, vec![0, 1, 2, 0, 1, 2, 0, 1, 2]);
}

#[test]
fn post_jobs_follow_integration() {
    let mut s = Scheduler::new(2);
    s.add_job(Phase::PreIntegrate);
    s.add_job(Phase::PostIntegrate);
    s.set_integrator();

    let actions = collect(s.begin());
    for step in 0..2u64 {
        let integ = actions.iter().position(|a| *a == Action::Integrate { step }).unwrap();
        // PostIntegrate jobs observe the state after this step's integration,
        // PreIntegrate jobs the state before it.
        assert_eq!(actions[integ - 1], Action::RunJob { phase: Phase::PreIntegrate, index: 0 });
        assert_eq!(actions[integ + 1], Action::RunJob { phase: Phase::PostIntegrate, index: 0 });
    }
}

#[test]
fn manual_stepping_runs_integrate_jobs() {
    // Without an installed integrator, user jobs under Integrate run in order.
    let mut s = Scheduler::new(1);
    s.add_job(Phase::Integrate);
    s.add_job(Phase::Integrate);

    let actions = collect(s.begin());
    assert_eq!(
        actions,
        vec![
            Action::RunJob { phase: Phase::Integrate, index: 0 },
            Action::RunJob { phase: Phase::Integrate, index: 1 },
            Action::Commit { step: 1 },
        ]
    );
}

#[test]
fn empty_run_emits_nothing() {
    let s = Scheduler::new(0);
    let mut run = s.begin();
    assert_eq!(run.next_action(), None);
    assert_eq!(run.next_action(), None);
}

#[test]
fn commits_carry_consecutive_counts() {
    // The clock never drifts: the k-th commit carries exactly count k, and
    // the host reconstructs t = dt * step from it.
    let mut s = Scheduler::new(1000);
    s.set_integrator();
    let actions = collect(s.begin());
    let dt = 0.1_f64;
    let mut expected_step = 1u64;
    let mut t = 0.0_f64;
    for a in &actions {
        if let Action::Commit { step } = a {
            assert_eq!(*step, expected_step);
            t = dt * (*step as f64);
            assert_eq!(t.to_bits(), (dt * (*step as f64)).to_bits());
            expected_step += 1;
        }
    }
    assert_eq!(expected_step, 1001);
    assert_eq!(t, dt * 1000.0);
}

#[test]
fn sample_follows_every_commit() {
    let mut s = Scheduler::new(5);
    s.set_integrator();
    s.set_recorder();
    let actions = collect(s.begin());
    for (i, a) in actions.iter().enumerate() {
        if let Action::Commit { step } = a {
            assert_eq!(actions[i + 1], Action::Sample { step: *step });
        }
    }
    assert_eq!(*actions.last().unwrap(), Action::Flush);
}

#[test]
fn phase_ordinals_follow_the_fixed_order() {
    assert_eq!(phase_ordinal(Phase::Init), 0);
    assert_eq!(phase_ordinal(Phase::PreIntegrate), 1);
    assert_eq!(phase_ordinal(Phase::Integrate), 2);
    assert_eq!(phase_ordinal(Phase::PostIntegrate), 3);
    assert_eq!(phase_ordinal(Phase::Shutdown), 4);
}

#[test]
fn recorder_only_run_commits_samples_and_flushes() {
    let mut s = Scheduler::new(2);
    s.set_recorder();
    let actions = collect(s.begin());
    assert_eq!(
        actions,
        vec![
            Action::Commit { step: 1 },
            Action::Sample { step: 1 },
            Action::Commit { step: 2 },
            Action::Sample { step: 2 },
            Action::Flush,
        ]
    );
}

#[test]
fn run_without_recorder_never_samples() {
    let mut s = Scheduler::new(5);
    s.set_integrator();
    let actions = collect(s.begin());
    assert!(actions.iter().all(|a| !matches!(a, Action::Sample { .. })));
    assert!(actions.iter().all(|a| !matches!(a, Action::Flush)));
}
