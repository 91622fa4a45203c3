//! The decisions of the reconciliation engine.
//!
//! A worker deploys one service. What it does next is a function of where it
//! stands and of what the last action came to; the caller performs the
//! actions. The engine waits for every worker and reports the first failure
//! that reached it.
use vstd::prelude::*;
use crate::keyed::reversed;
use crate::text::{join2, join3};

verus! {

/// What the deployment tool is asked to do.
#[derive(Clone, Copy, Debug, PartialEq, Eq, Structural)]
pub enum UpgradeMode {
    /// Show what would change.
    DiffOnly,
    /// Upgrade and wait until the service is ready.
    UpgradeWait,
    /// Install the service if it is not there, and wait.
    UpgradeInstall,
}

impl UpgradeMode {
    /// The name of the mode.
    pub open spec fn name(self) -> Seq<char> {
        match self {
            UpgradeMode::DiffOnly => "diff"@,
            UpgradeMode::UpgradeWait => "upgrade"@,
            UpgradeMode::UpgradeInstall => "install"@,
        }
    }

    /// The name of the mode.
    pub fn to_string(&self) -> (r: String)
        ensures
            r@ == self.name(),
    {
        match self {
            UpgradeMode::DiffOnly => "diff".to_owned(),
            UpgradeMode::UpgradeWait => "upgrade".to_owned(),
            UpgradeMode::UpgradeInstall => "install".to_owned(),
        }
    }
}

/// What the deployment of one service came to.
#[derive(Clone, Debug)]
pub enum Outcome<E> {
    /// The service was upgraded.
    Applied,
    /// Nothing had changed, or the service is disabled.
    Skipped,
    /// The deployment failed.
    Failed(E),
}

/// Where a worker stands.
#[derive(Clone, Debug)]
pub enum WorkerState<E> {
    /// The manifest is being completed.
    Resolving,
    /// The manifest has no version; the running version is being looked up.
    InferringVersion,
    /// The values file is being rendered.
    Rendering,
    /// The upgrade plan is being built.
    Planning,
    /// The deployment tool is running.
    Upgrading,
    /// The success is being notified.
    NotifyingSuccess,
    /// The failure is being notified.
    NotifyingFailure(E),
    /// The failed deployment is being rolled back.
    RollingBack(E),
    /// The values file is being removed.
    Cleaning(Outcome<E>),
    /// The worker is done.
    Finished(Outcome<E>),
}

/// What a worker asks its caller to do.
#[derive(Clone, Copy, Debug, PartialEq, Eq, Structural)]
pub enum Action {
    /// Complete the manifest of the service for the region.
    Resolve,
    /// Look up the version that is running.
    InferVersion,
    /// Render the values file.
    Render,
    /// Build the upgrade plan.
    Plan,
    /// Run the deployment tool for this service, and wait for it.
    Upgrade,
    /// Notify of the outcome of the deployment: whether it succeeded.
    Notify(bool),
    /// Roll the service back.
    Rollback,
    /// Remove the values file.
    Cleanup,
    /// Nothing more: the worker is done.
    Stop,
}

/// What an action came to.
#[derive(Clone, Debug)]
pub enum Event<E> {
    /// The manifest is complete; whether it names a version.
    Completed { has_version: bool },
    /// The running version was found.
    VersionInferred,
    /// The values file is written.
    Rendered,
    /// The plan is built; whether there is anything to upgrade.
    Planned { needed: bool },
    /// The deployment tool succeeded.
    Upgraded,
    /// The notification was sent.
    Notified,
    /// The rollback was done.
    RolledBack,
    /// The values file is removed.
    Cleaned,
    /// The action failed.
    Failed(E),
}

/// The action that a worker in `state` is waiting for.
pub open spec fn pending<E>(state: WorkerState<E>) -> Action {
    match state {
        WorkerState::Resolving => Action::Resolve,
        WorkerState::InferringVersion => Action::InferVersion,
        WorkerState::Rendering => Action::Render,
        WorkerState::Planning => Action::Plan,
        WorkerState::Upgrading => Action::Upgrade,
        WorkerState::NotifyingSuccess => Action::Notify(true),
        WorkerState::NotifyingFailure(_) => Action::Notify(false),
        WorkerState::RollingBack(_) => Action::Rollback,
        WorkerState::Cleaning(_) => Action::Cleanup,
        WorkerState::Finished(_) => Action::Stop,
    }
}

/// Where a worker in `state` stands after `event`.
///
/// A failure before anything was rendered ends the worker. From rendering
/// on, every way to the end removes the values file. A failed deployment is
/// notified and rolled back, and stays the failure of the worker whatever
/// notification and rollback come to. Notification, rollback and removal
/// are taken as done whatever they report. An event that does not answer the
/// pending action changes nothing.
pub open spec fn next_state<E>(state: WorkerState<E>, event: Event<E>) -> WorkerState<E> {
    match state {
        WorkerState::Resolving => match event {
            Event::Completed { has_version } => if has_version {
                WorkerState::Rendering
            } else {
                WorkerState::InferringVersion
            },
            Event::Failed(e) => WorkerState::Finished(Outcome::Failed(e)),
            _ => state,
        },
        WorkerState::InferringVersion => match event {
            Event::VersionInferred => WorkerState::Rendering,
            Event::Failed(e) => WorkerState::Finished(Outcome::Failed(e)),
            _ => state,
        },
        WorkerState::Rendering => match event {
            Event::Rendered => WorkerState::Planning,
            Event::Failed(e) => WorkerState::Cleaning(Outcome::Failed(e)),
            _ => state,
        },
        WorkerState::Planning => match event {
            Event::Planned { needed } => if needed {
                WorkerState::Upgrading
            } else {
                WorkerState::Cleaning(Outcome::Skipped)
            },
            Event::Failed(e) => WorkerState::Cleaning(Outcome::Failed(e)),
            _ => state,
        },
        WorkerState::Upgrading => match event {
            Event::Upgraded => WorkerState::NotifyingSuccess,
            Event::Failed(e) => WorkerState::NotifyingFailure(e),
            _ => state,
        },
        WorkerState::NotifyingSuccess => match event {
            Event::Notified => WorkerState::Cleaning(Outcome::Applied),
            Event::Failed(_) => WorkerState::Cleaning(Outcome::Applied),
            _ => state,
        },
        WorkerState::NotifyingFailure(e) => match event {
            Event::Notified => WorkerState::RollingBack(e),
            Event::Failed(_) => WorkerState::RollingBack(e),
            _ => state,
        },
        WorkerState::RollingBack(e) => match event {
            Event::RolledBack => WorkerState::Cleaning(Outcome::Failed(e)),
            Event::Failed(_) => WorkerState::Cleaning(Outcome::Failed(e)),
            _ => state,
        },
        WorkerState::Cleaning(o) => match event {
            Event::Cleaned => WorkerState::Finished(o),
            Event::Failed(_) => WorkerState::Finished(o),
            _ => state,
        },
        WorkerState::Finished(_) => state,
    }
}

/// Where a worker begins, and what it asks for first.
pub fn start<E>() -> (r: (WorkerState<E>, Action))
    ensures
        r.0 == WorkerState::<E>::Resolving,
        r.1 == Action::Resolve,
{
    (WorkerState::Resolving, Action::Resolve)
}

/// The action that a worker in `state` is waiting for.
pub fn pending_action<E>(state: &WorkerState<E>) -> (a: Action)
    ensures
        a == pending(*state),
{
    match state {
        WorkerState::Resolving => Action::Resolve,
        WorkerState::InferringVersion => Action::InferVersion,
        WorkerState::Rendering => Action::Render,
        WorkerState::Planning => Action::Plan,
        WorkerState::Upgrading => Action::Upgrade,
        WorkerState::NotifyingSuccess => Action::Notify(true),
        WorkerState::NotifyingFailure(_) => Action::Notify(false),
        WorkerState::RollingBack(_) => Action::Rollback,
        WorkerState::Cleaning(_) => Action::Cleanup,
        WorkerState::Finished(_) => Action::Stop,
    }
}

/// Takes a worker from `state` over `event`: where it stands then, and what
/// it asks for next.
pub fn reconcile_worker<E>(state: WorkerState<E>, event: Event<E>) -> (r: (WorkerState<E>, Action))
    ensures
        r.0 == next_state(state, event),
        r.1 == pending(r.0),
{
    let next = match state {
        WorkerState::Resolving => match event {
            Event::Completed { has_version } => if has_version {
                WorkerState::Rendering
            } else {
                WorkerState::InferringVersion
            },
            Event::Failed(e) => WorkerState::Finished(Outcome::Failed(e)),
            _ => WorkerState::Resolving,
        },
        WorkerState::InferringVersion => match event {
            Event::VersionInferred => WorkerState::Rendering,
            Event::Failed(e) => WorkerState::Finished(Outcome::Failed(e)),
            _ => WorkerState::InferringVersion,
        },
        WorkerState::Rendering => match event {
            Event::Rendered => WorkerState::Planning,
            Event::Failed(e) => WorkerState::Cleaning(Outcome::Failed(e)),
            _ => WorkerState::Rendering,
        },
        WorkerState::Planning => match event {
            Event::Planned { needed } => if needed {
                WorkerState::Upgrading
            } else {
                WorkerState::Cleaning(Outcome::Skipped)
            },
            Event::Failed(e) => WorkerState::Cleaning(Outcome::Failed(e)),
            _ => WorkerState::Planning,
        },
        WorkerState::Upgrading => match event {
            Event::Upgraded => WorkerState::NotifyingSuccess,
            Event::Failed(e) => WorkerState::NotifyingFailure(e),
            _ => WorkerState::Upgrading,
        },
        WorkerState::NotifyingSuccess => match event {
            Event::Notified => WorkerState::Cleaning(Outcome::Applied),
            Event::Failed(_) => WorkerState::Cleaning(Outcome::Applied),
            _ => WorkerState::NotifyingSuccess,
        },
        WorkerState::NotifyingFailure(e) => match event {
            Event::Notified => WorkerState::RollingBack(e),
            Event::Failed(_) => WorkerState::RollingBack(e),
            _ => WorkerState::NotifyingFailure(e),
        },
        WorkerState::RollingBack(e) => match event {
            Event::RolledBack => WorkerState::Cleaning(Outcome::Failed(e)),
            Event::Failed(_) => WorkerState::Cleaning(Outcome::Failed(e)),
            _ => WorkerState::RollingBack(e),
        },
        WorkerState::Cleaning(o) => match event {
            Event::Cleaned => WorkerState::Finished(o),
            Event::Failed(_) => WorkerState::Finished(o),
            _ => WorkerState::Cleaning(o),
        },
        WorkerState::Finished(o) => WorkerState::Finished(o),
    };
    let action = pending_action(&next);
    (next, action)
}

/// Whether `event` answers the action that a worker in `state` waits for,
/// with success or with failure.
pub open spec fn answers<E>(state: WorkerState<E>, event: Event<E>) -> bool {
    !(state is Finished) && next_state(state, event) != state
}

/// A deployment that failed with `e` ends as failed with `e`, whatever the
/// notification, the rollback and the removal of the values file come to;
/// and on the way the failure is notified, the service is rolled back and the
/// values file is removed, in that order.
pub proof fn law_failure_is_kept<E>(e: E, notified: Event<E>, rolled: Event<E>, cleaned: Event<E>)
    requires
        answers(WorkerState::NotifyingFailure(e), notified),
        answers(WorkerState::RollingBack(e), rolled),
        answers(WorkerState::Cleaning(Outcome::Failed(e)), cleaned),
    ensures
        next_state(WorkerState::Upgrading, Event::Failed(e)) == WorkerState::NotifyingFailure(e),
        pending(WorkerState::NotifyingFailure(e)) == Action::Notify(false),
        next_state(WorkerState::NotifyingFailure(e), notified) == WorkerState::RollingBack(e),
        pending(WorkerState::RollingBack(e)) == Action::Rollback,
        next_state(WorkerState::RollingBack(e), rolled) == WorkerState::Cleaning(
            Outcome::Failed(e),
        ),
        pending(WorkerState::Cleaning(Outcome::Failed(e))) == Action::Cleanup,
        next_state(WorkerState::Cleaning(Outcome::Failed(e)), cleaned) == WorkerState::Finished(
            Outcome::Failed(e),
        ),
{
}

/// A deployment that succeeded ends as applied even if its notification
/// fails or the values file cannot be removed.
pub proof fn law_silent_failures<E>(notified: Event<E>, cleaned: Event<E>)
    requires
        answers(WorkerState::<E>::NotifyingSuccess, notified),
        answers(WorkerState::<E>::Cleaning(Outcome::Applied), cleaned),
    ensures
        next_state(WorkerState::<E>::NotifyingSuccess, notified) == WorkerState::<E>::Cleaning(
            Outcome::Applied,
        ),
        next_state(WorkerState::<E>::Cleaning(Outcome::Applied), cleaned) == WorkerState::<
            E,
        >::Finished(Outcome::Applied),
{
}

/// From rendering on, a worker finishes only out of the removal of the
/// values file: no step leads from a state after rendering straight to the
/// end.
pub proof fn law_cleanup_before_end<E>(state: WorkerState<E>, event: Event<E>)
    requires
        !(state is Resolving),
        !(state is InferringVersion),
        !(state is Finished),
        next_state(state, event) is Finished,
    ensures
        state is Cleaning,
        pending(state) == Action::Cleanup,
{
}

/// The name of the values file of `service` in `region` for the run `run`.
pub open spec fn values_file_name(service: Seq<char>, region: Seq<char>, run: Seq<char>) -> Seq<
    char,
> {
    service + "."@ + region + "."@ + run + ".helm.gen.yml"@
}

/// The name of the values file of `service` in `region` for the run `run`.
pub fn values_file(service: &str, region: &str, run: &str) -> (r: String)
    ensures
        r@ == values_file_name(service@, region@, run@),
{
    let a = join3(service, ".", region);
    let b = join3(a.as_str(), ".", run);
    join2(b.as_str(), ".helm.gen.yml")
}

/// The errors among `outcomes`, in order.
pub open spec fn failures<E>(outcomes: Seq<Outcome<E>>) -> Seq<E>
    decreases outcomes.len(),
{
    if outcomes.len() == 0 {
        Seq::empty()
    } else {
        let before = failures(outcomes.drop_last());
        match outcomes.last() {
            Outcome::Failed(e) => before.push(e),
            _ => before,
        }
    }
}

/// The results of the workers, as they arrive.
#[derive(Debug)]
pub struct Tally<E> {
    expected: usize,
    received: usize,
    errors: Vec<E>,
}

impl<E> Tally<E> {
    /// How many results are awaited in all.
    pub closed spec fn expected(self) -> nat {
        self.expected as nat
    }

    /// How many results have arrived.
    pub closed spec fn received(self) -> nat {
        self.received as nat
    }

    /// The failures that have arrived, in order of arrival.
    pub closed spec fn errors(self) -> Seq<E> {
        self.errors@
    }

    /// No more results have arrived than are awaited.
    #[verifier::type_invariant]
    pub closed spec fn wf(self) -> bool {
        self.received <= self.expected && self.errors@.len() <= self.received
    }

    /// A tally that awaits `n_jobs` results.
    pub fn new(n_jobs: usize) -> (t: Self)
        ensures
            t.expected() == n_jobs,
            t.received() == 0,
            t.errors() == Seq::<E>::empty(),
    {
        Tally { expected: n_jobs, received: 0, errors: Vec::new() }
    }

    /// Whether every awaited result has arrived.
    pub fn is_complete(&self) -> (r: bool)
        ensures
            r == (self.received() == self.expected()),
            self.received() <= self.expected(),
    {
        proof {
            use_type_invariant(self);
        }
        self.received == self.expected
    }

    /// Takes in the result of one worker.
    pub fn record(self, outcome: Outcome<E>) -> (t: Self)
        requires
            self.received() < self.expected(),
        ensures
            t.expected() == self.expected(),
            t.received() == self.received() + 1,
            t.errors() == match outcome {
                Outcome::Failed(e) => self.errors().push(e),
                _ => self.errors(),
            },
    {
        proof {
            use_type_invariant(&self);
        }
        let Tally { expected, received, errors } = self;
        let mut errors = errors;
        match outcome {
            Outcome::Failed(e) => {
                errors.push(e);
            },
            _ => {},
        }
        Tally { expected, received: received + 1, errors }
    }

    /// The result of the whole, once every awaited result has arrived: the
    /// first failure that arrived, if any did. `None` while results are
    /// outstanding.
    pub fn finish(self) -> (r: Option<Result<(), E>>)
        ensures
            r is Some <==> self.received() == self.expected(),
            r matches Some(Ok(_)) ==> self.errors().len() == 0,
            r matches Some(Err(e)) ==> self.errors().len() > 0 && e == self.errors()[0],
    {
        proof {
            use_type_invariant(&self);
        }
        let Tally { expected, received, errors } = self;
        if received != expected {
            return None;
        }
        let mut errors = reversed(errors);
        match errors.pop() {
            None => Some(Ok(())),
            Some(e) => Some(Err(e)),
        }
    }
}

/// The result of a reconciliation whose workers came to `outcomes`, in the
/// order in which they finished: the first failure, if there is one. Every
/// outcome is taken in before the result is known.
pub fn reconcile<E>(outcomes: Vec<Outcome<E>>) -> (r: Result<(), E>)
    ensures
        r is Ok <==> failures(outcomes@).len() == 0,
        r matches Err(e) ==> e == failures(outcomes@)[0],
{
    let ghost all = outcomes@;
    let n = outcomes.len();
    let mut rest = reversed(outcomes);
    let mut tally: Tally<E> = Tally::new(n);
    let mut i: usize = 0;
    assert(all.take(0) =~= Seq::<Outcome<E>>::empty());
    while i < n
        invariant
            i <= n,
            n == all.len(),
            rest@.len() == n - i,
            forall|j: int| 0 <= j < n - i ==> #[trigger] rest@[j] == all[n - 1 - j],
            tally.expected() == n,
            tally.received() == i,
            tally.errors() == failures(all.take(i as int)),
        decreases n - i,
    {
        let o = rest.pop().unwrap();
        proof {
            assert(all.take(i + 1).drop_last() =~= all.take(i as int));
            assert(all.take(i + 1).last() == o);
        }
        tally = tally.record(o);
        i += 1;
    }
    assert(all.take(n as int) =~= all);
    match tally.finish() {
        Some(r) => r,
        None => unreached(),
    }
}

} // verus!
