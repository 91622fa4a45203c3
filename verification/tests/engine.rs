use shipcat::engine::{
    pending_action, reconcile, reconcile_worker, start, values_file, Action, Event, Outcome, Tally,
    UpgradeMode, WorkerState,
};

fn run(events: Vec<Event<String>>) -> (WorkerState<String>, Vec<Action>) {
    let (mut state, first) = start::<String>();
    let mut actions = vec![first];
    for ev in events {
        let (next, action) = reconcile_worker(state, ev);
        state = next;
        actions.push(action);
    }
    (state, actions)
}

fn outcome(state: WorkerState<String>) -> Outcome<String> {
    match state {
        WorkerState::Finished(o) => o,
        other => panic!("not finished: {:?}", other),
    }
}

#[test]
fn five_jobs_two_workers_third_fails() {
    let jobs: Vec<usize> = (0..5).collect();
    let mut tally: Tally<String> = Tally::new(jobs.len());
    let mut pending: Vec<usize> = jobs.clone();
    pending.reverse();
    let mut completed = 0;
    while !tally.is_complete() {
        // two workers take a job each, and report in turn
        let batch: Vec<usize> = (0..2).filter_map(|_| pending.pop()).collect();
        for job in batch {
            let o = if job == 2 { Outcome::Failed("third failed".to_string()) } else { Outcome::Applied };
            tally = tally.record(o);
            completed += 1;
        }
    }
    assert_eq!(completed, 5);
    assert!(pending.is_empty());
    assert_eq!(tally.finish(), Some(Err("third failed".to_string())));
}

#[test]
fn tally_is_not_done_before_all_arrived() {
    let mut tally: Tally<String> = Tally::new(3);
    assert!(!tally.is_complete());
    tally = tally.record(Outcome::Failed("a".into()));
    tally = tally.record(Outcome::Skipped);
    assert!(!tally.is_complete());
    assert_eq!(tally.finish(), None);
    let empty: Tally<String> = Tally::new(0);
    assert!(empty.is_complete());
    assert_eq!(empty.finish(), Some(Ok(())));
}

#[test]
fn reconcile_reports_the_first_failure() {
    let all_good: Vec<Outcome<String>> = vec![Outcome::Applied, Outcome::Skipped, Outcome::Applied];
    assert_eq!(reconcile(all_good), Ok(()));
    let some_bad = vec![
        Outcome::Applied,
        Outcome::Failed("first".to_string()),
        Outcome::Skipped,
        Outcome::Failed("second".to_string()),
    ];
    assert_eq!(reconcile(some_bad), Err("first".to_string()));
    assert_eq!(reconcile(Vec::<Outcome<String>>::new()), Ok(()));
}

#[test]
fn worker_applies() {
    let (state, actions) = run(vec![
        Event::Completed { has_version: true },
        Event::Rendered,
        Event::Planned { needed: true },
        Event::Upgraded,
        Event::Notified,
        Event::Cleaned,
    ]);
    assert_eq!(
        actions,
        vec![
            Action::Resolve,
            Action::Render,
            Action::Plan,
            Action::Upgrade,
            Action::Notify(true),
            Action::Cleanup,
            Action::Stop
        ]
    );
    assert!(matches!(outcome(state), Outcome::Applied));
}

#[test]
fn worker_infers_a_missing_version() {
    let (state, actions) = run(vec![Event::Completed { has_version: false }, Event::VersionInferred]);
    assert_eq!(actions, vec![Action::Resolve, Action::InferVersion, Action::Render]);
    assert!(matches!(state, WorkerState::Rendering));
}

#[test]
fn worker_skips_when_nothing_changed() {
    let (state, actions) = run(vec![
        Event::Completed { has_version: true },
        Event::Rendered,
        Event::Planned { needed: false },
        Event::Cleaned,
    ]);
    assert_eq!(actions.last(), Some(&Action::Stop));
    assert_eq!(actions[3], Action::Cleanup);
    assert!(matches!(outcome(state), Outcome::Skipped));
}

#[test]
fn failed_deployment_is_rolled_back_and_keeps_its_error() {
    let (state, actions) = run(vec![
        Event::Completed { has_version: true },
        Event::Rendered,
        Event::Planned { needed: true },
        Event::Failed("deploy broke".to_string()),
        Event::Failed("notify broke".to_string()),
        Event::Failed("rollback broke".to_string()),
        Event::Failed("delete broke".to_string()),
    ]);
    assert_eq!(
        actions[4..].to_vec(),
        vec![Action::Notify(false), Action::Rollback, Action::Cleanup, Action::Stop]
    );
    match outcome(state) {
        Outcome::Failed(e) => assert_eq!(e, "deploy broke"),
        other => panic!("{:?}", other),
    }
}

#[test]
fn notification_failure_is_not_a_failure() {
    let (state, _) = run(vec![
        Event::Completed { has_version: true },
        Event::Rendered,
        Event::Planned { needed: true },
        Event::Upgraded,
        Event::Failed("notify broke".to_string()),
        Event::Failed("delete broke".to_string()),
    ]);
    assert!(matches!(outcome(state), Outcome::Applied));
}

#[test]
fn early_failures_end_the_worker() {
    let (state, actions) = run(vec![Event::Failed("no manifest".to_string())]);
    assert_eq!(actions, vec![Action::Resolve, Action::Stop]);
    assert!(matches!(outcome(state), Outcome::Failed(_)));
    let (state, actions) =
        run(vec![Event::Completed { has_version: false }, Event::Failed("no version".to_string())]);
    assert_eq!(actions.last(), Some(&Action::Stop));
    assert!(matches!(outcome(state), Outcome::Failed(_)));
    let (state, actions) =
        run(vec![Event::Completed { has_version: true }, Event::Failed("no render".to_string())]);
    assert_eq!(actions.last(), Some(&Action::Cleanup));
    assert!(matches!(state, WorkerState::Cleaning(Outcome::Failed(_))));
}

#[test]
fn events_out_of_turn_change_nothing() {
    let (state, actions) = run(vec![Event::Upgraded, Event::Cleaned, Event::Rendered]);
    assert!(matches!(state, WorkerState::Resolving));
    assert_eq!(actions, vec![Action::Resolve; 4]);
    let done: WorkerState<String> = WorkerState::Finished(Outcome::Applied);
    assert_eq!(pending_action(&done), Action::Stop);
    let (state, action) = reconcile_worker(done, Event::Failed("late".to_string()));
    assert!(matches!(state, WorkerState::Finished(Outcome::Applied)));
    assert_eq!(action, Action::Stop);
}

#[test]
fn values_files_are_named_per_region_and_run() {
    assert_eq!(values_file("svc", "dev-uk", "42"), "svc.dev-uk.42.helm.gen.yml");
    assert_ne!(values_file("svc", "dev-uk", "42"), values_file("svc", "dev-ops", "42"));
    assert_ne!(values_file("svc", "dev-uk", "42"), values_file("svc", "dev-uk", "43"));
}

#[test]
fn upgrade_modes_have_names() {
    assert_eq!(UpgradeMode::DiffOnly.to_string(), "diff");
    assert_eq!(UpgradeMode::UpgradeWait.to_string(), "upgrade");
    assert_eq!(UpgradeMode::UpgradeInstall.to_string(), "install");
}
