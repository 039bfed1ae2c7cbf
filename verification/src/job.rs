//! The job of one backup set: its state, and the state machine that file
//! changes, manual triggers and the job's worker drive.
//!
//! The worker is the task that waits out the debounce delay and runs the
//! engine. It does the waiting and the running itself; every decision it
//! takes is one of the functions here, called with the job's lock held:
//! `worker_begin` when it starts, `worker_tick` after each sleep,
//! `run_finished` when the engine's backup has returned and
//! `prune_finished` when the pruning after a backup has returned. Each
//! returns a `WorkerStep` that says what the worker does next.
//!
//! Instants are milliseconds on a monotonic clock.

use crate::config::{BackupSet, BackupSetView, RetentionPolicy};
use crate::ipc::{data_views, ResponseData, ResponseDataView};
use crate::text::opt_text;
use crate::types::{clone_opt_result, opt_result, BackupResult, BackupResultView, JobState};
use vstd::prelude::*;
use vstd::string::StringExecFns;

verus! {

/// Milliseconds that a worker sleeps between two ticks.
pub const TICK_INTERVAL_MS: u64 = 500;

/// The job of one backup set.
#[derive(Debug)]
pub struct Job {
    /// The configuration of the set.
    pub set: BackupSet,
    /// Where the job stands.
    pub state: JobState,
    /// Instant of the most recent file change, if there was one.
    pub last_change: Option<u64>,
    /// How the most recent backup ended, if one is known.
    pub last_backup: Option<BackupResult>,
    /// Whether the repository is mounted.
    pub is_mounted: bool,
    /// Process identifier of the mount process, where one is tracked.
    pub mount_child: Option<u32>,
    /// Set by a manual trigger while debouncing; the worker's next tick
    /// consumes it and starts the backup.
    pub immediate_trigger: bool,
    /// Number of snapshots in the repository, where known.
    pub snapshot_count: Option<u64>,
    /// Size of the repository in bytes, where known.
    pub total_bytes: Option<u64>,
    /// Whether a worker task exists for this job.
    pub worker_live: bool,
}

/// What a `Job` holds, as mathematical values.
pub struct JobView {
    pub set: BackupSetView,
    pub state: JobState,
    pub last_change: Option<u64>,
    pub last_backup: Option<BackupResultView>,
    pub is_mounted: bool,
    pub mount_child: Option<u32>,
    pub immediate_trigger: bool,
    pub snapshot_count: Option<u64>,
    pub total_bytes: Option<u64>,
    pub worker_live: bool,
}

impl View for Job {
    type V = JobView;

    open spec fn view(&self) -> JobView {
        JobView {
            set: self.set@,
            state: self.state,
            last_change: self.last_change,
            last_backup: opt_result(self.last_backup),
            is_mounted: self.is_mounted,
            mount_child: self.mount_child,
            immediate_trigger: self.immediate_trigger,
            snapshot_count: self.snapshot_count,
            total_bytes: self.total_bytes,
            worker_live: self.worker_live,
        }
    }
}

impl Clone for Job {
    fn clone(&self) -> (out: Self)
        ensures
            out@ == self@,
    {
        Job {
            set: self.set.clone(),
            state: self.state,
            last_change: self.last_change,
            last_backup: clone_opt_result(&self.last_backup),
            is_mounted: self.is_mounted,
            mount_child: self.mount_child,
            immediate_trigger: self.immediate_trigger,
            snapshot_count: self.snapshot_count,
            total_bytes: self.total_bytes,
            worker_live: self.worker_live,
        }
    }
}

/// What a worker is doing. A worker keeps its phase to itself and hands the
/// values in it back at its next step.
#[derive(Clone, Copy, Debug, PartialEq, Eq, Structural)]
pub enum WorkerPhase {
    /// Spawned, and `worker_begin` not yet called.
    Starting,
    /// Waiting until `window_secs` seconds have passed since `start_ms`.
    Debounce { start_ms: u64, window_secs: u64 },
    /// Running the backup that started at `started_ms`.
    Run { started_ms: u64 },
    /// Pruning after the backup that started at `started_ms`.
    Prune { started_ms: u64 },
    /// Ended.
    Done,
}

/// What a worker does after a step.
#[derive(Debug)]
pub enum Directive {
    /// Sleep for `millis` milliseconds, then call `worker_tick`.
    Sleep { millis: u64 },
    /// Run the engine's backup of `set`, then call `run_finished`.
    Backup { set: BackupSet },
    /// Run the engine's prune of `set`, then call `prune_finished`.
    Prune { set: BackupSet },
    /// Return: the worker has ended.
    Exit,
}

/// What a `Directive` holds, as mathematical values.
pub enum DirectiveView {
    Sleep { millis: u64 },
    Backup { set: BackupSetView },
    Prune { set: BackupSetView },
    Exit,
}

impl View for Directive {
    type V = DirectiveView;

    open spec fn view(&self) -> DirectiveView {
        match *self {
            Directive::Sleep { millis } => DirectiveView::Sleep { millis },
            Directive::Backup { set } => DirectiveView::Backup { set: set@ },
            Directive::Prune { set } => DirectiveView::Prune { set: set@ },
            Directive::Exit => DirectiveView::Exit,
        }
    }
}

/// How the engine's backup of a set ended.
#[derive(Debug)]
pub enum RunOutcome {
    /// The engine ran; the result says whether it wrote a snapshot.
    Completed(BackupResult),
    /// The run was cancelled, or what the engine printed could not be
    /// read; holds the reason.
    Aborted(String),
}

/// What a `RunOutcome` holds, as mathematical values.
pub enum RunOutcomeView {
    Completed(BackupResultView),
    Aborted(Seq<char>),
}

impl View for RunOutcome {
    type V = RunOutcomeView;

    open spec fn view(&self) -> RunOutcomeView {
        match *self {
            RunOutcome::Completed(r) => RunOutcomeView::Completed(r@),
            RunOutcome::Aborted(m) => RunOutcomeView::Aborted(m@),
        }
    }
}

/// How the pruning after a backup ended.
#[derive(Debug)]
pub enum PruneOutcome {
    /// The engine pruned and reclaimed this many bytes.
    Reclaimed(u64),
    /// The engine failed or was cancelled; holds the reason.
    Failed(String),
}

/// What a `PruneOutcome` holds, as mathematical values.
pub enum PruneOutcomeView {
    Reclaimed(u64),
    Failed(Seq<char>),
}

impl View for PruneOutcome {
    type V = PruneOutcomeView;

    open spec fn view(&self) -> PruneOutcomeView {
        match *self {
            PruneOutcome::Reclaimed(n) => PruneOutcomeView::Reclaimed(n),
            PruneOutcome::Failed(m) => PruneOutcomeView::Failed(m@),
        }
    }
}

/// What one step of a worker decides, apart from the job's new value.
#[derive(Debug)]
pub struct WorkerStep {
    /// The worker's phase from now on.
    pub phase: WorkerPhase,
    /// What the worker does next.
    pub directive: Directive,
    /// The events to broadcast, in order.
    pub events: Vec<ResponseData>,
    /// The body of a desktop notification to raise, if any.
    pub notification: Option<String>,
    /// Whether to refresh, off the worker, the metrics of this set and of
    /// every set that shares its target.
    pub refresh_metrics: bool,
}

/// What a `WorkerStep` holds, as mathematical values.
pub struct WorkerStepView {
    pub phase: WorkerPhase,
    pub directive: DirectiveView,
    pub events: Seq<ResponseDataView>,
    pub notification: Option<Seq<char>>,
    pub refresh_metrics: bool,
}

impl View for WorkerStep {
    type V = WorkerStepView;

    open spec fn view(&self) -> WorkerStepView {
        WorkerStepView {
            phase: self.phase,
            directive: self.directive@,
            events: data_views(self.events@),
            notification: opt_text(self.notification),
            refresh_metrics: self.refresh_metrics,
        }
    }
}

/// A step of the state machine: the job after it, and what was decided.
pub struct Step {
    pub job: JobView,
    pub out: WorkerStepView,
}

/// The text reported for a failed result that carries no message.
pub open spec fn unknown_error() -> Seq<char> {
    "Unknown error"@
}

/// The notification body for a backup that ran and failed.
pub open spec fn failure_note(name: Seq<char>, error: Seq<char>) -> Seq<char> {
    "Backup for set '"@ + name + "' failed: "@ + error
}

/// The notification body for a backup that was aborted.
pub open spec fn abort_note(name: Seq<char>, error: Seq<char>) -> Seq<char> {
    "Internal error backing up set '"@ + name + "': "@ + error
}

impl JobView {
    /// The job of a set that was just configured.
    pub open spec fn fresh(set: BackupSetView) -> JobView {
        JobView {
            set,
            state: JobState::Idle,
            last_change: None,
            last_backup: None,
            is_mounted: false,
            mount_child: None,
            immediate_trigger: false,
            snapshot_count: None,
            total_bytes: None,
            worker_live: false,
        }
    }

    /// A tracked mount process implies that the job counts as mounted.
    pub open spec fn well_formed(self) -> bool {
        self.mount_child is Some ==> self.is_mounted
    }

    /// A job that is debouncing or running has a worker.
    pub open spec fn attended(self) -> bool {
        (self.state is Debouncing || self.state is Running) ==> self.worker_live
    }

    /// Whether a file change or a manual trigger finds the job at rest.
    pub open spec fn at_rest(self) -> bool {
        self.state is Idle || self.state is Error
    }

    /// The job after a file change at `now_ms`.
    pub open spec fn after_file_change(self, now_ms: u64, global_debounce: u64) -> JobView {
        if self.at_rest() {
            JobView {
                last_change: Some(now_ms),
                state: JobState::Debouncing {
                    remaining_secs: self.set.effective_debounce(global_debounce),
                },
                worker_live: true,
                ..self
            }
        } else {
            JobView { last_change: Some(now_ms), ..self }
        }
    }

    /// Whether a file change or a manual trigger has a worker spawned.
    pub open spec fn spawns_worker(self) -> bool {
        self.at_rest() && !self.worker_live
    }

    /// The job after a manual trigger. A running job refuses the trigger
    /// and stays as it is.
    pub open spec fn after_manual_trigger(self) -> JobView {
        match self.state {
            JobState::Running => self,
            JobState::Debouncing { .. } => JobView { immediate_trigger: true, ..self },
            _ => JobView { state: JobState::Running, worker_live: true, ..self },
        }
    }

    /// The worker ends.
    pub open spec fn exit(self) -> Step {
        Step {
            job: JobView { worker_live: false, ..self },
            out: WorkerStepView {
                phase: WorkerPhase::Done,
                directive: DirectiveView::Exit,
                events: Seq::empty(),
                notification: None,
                refresh_metrics: false,
            },
        }
    }

    /// The worker starts the backup.
    pub open spec fn start_run(self, now_ms: u64) -> Step {
        Step {
            job: self,
            out: WorkerStepView {
                phase: WorkerPhase::Run { started_ms: now_ms },
                directive: DirectiveView::Backup { set: self.set },
                events: Seq::empty(),
                notification: None,
                refresh_metrics: false,
            },
        }
    }

    /// One tick of a debouncing worker: the debounce algorithm.
    ///
    /// A cancelled worker ends. A job that is already running, that was
    /// triggered by hand or that has seen no change starts its backup. Else
    /// the wait restarts at the last change if that is later than
    /// `start_ms`, and the backup starts once `window_secs` seconds have
    /// passed since; until then the job shows the whole seconds that remain
    /// and the worker sleeps one tick interval.
    pub open spec fn tick(
        self,
        start_ms: u64,
        window_secs: u64,
        now_ms: u64,
        cancelled: bool,
    ) -> Step {
        if cancelled {
            self.exit()
        } else if self.state is Running {
            self.start_run(now_ms)
        } else if self.immediate_trigger {
            JobView { immediate_trigger: false, state: JobState::Running, ..self }.start_run(
                now_ms,
            )
        } else {
            match self.last_change {
                None => JobView { state: JobState::Running, ..self }.start_run(now_ms),
                Some(changed) => {
                    let start = if changed > start_ms {
                        changed
                    } else {
                        start_ms
                    };
                    let elapsed = if now_ms >= start {
                        now_ms - start
                    } else {
                        0
                    };
                    if elapsed >= window_secs * 1000 {
                        JobView { state: JobState::Running, ..self }.start_run(now_ms)
                    } else {
                        Step {
                            job: JobView {
                                state: JobState::Debouncing {
                                    remaining_secs: ((window_secs * 1000 - elapsed) / 1000) as u64,
                                },
                                ..self
                            },
                            out: WorkerStepView {
                                phase: WorkerPhase::Debounce { start_ms: start, window_secs },
                                directive: DirectiveView::Sleep { millis: TICK_INTERVAL_MS },
                                events: Seq::empty(),
                                notification: None,
                                refresh_metrics: false,
                            },
                        }
                    }
                },
            }
        }
    }

    /// The first step of a worker, and its step when it debounces again.
    ///
    /// A cancelled worker ends. A job that is running starts its backup at
    /// once. Else the worker waits for the debounce delay in force, from the
    /// last change, or from now where there was none, and takes its first
    /// tick at once.
    pub open spec fn begin(self, now_ms: u64, global_debounce: u64, cancelled: bool) -> Step {
        if cancelled {
            self.exit()
        } else if self.state is Running {
            JobView { immediate_trigger: false, ..self }.start_run(now_ms)
        } else {
            self.tick(
                match self.last_change {
                    Some(changed) => changed,
                    None => now_ms,
                },
                self.set.effective_debounce(global_debounce),
                now_ms,
                false,
            )
        }
    }

    /// Whether a change came after the instant `started_ms`.
    pub open spec fn changed_since(self, started_ms: u64) -> bool {
        self.last_change is Some && self.last_change->0 > started_ms
    }

    /// The end of a successful run and of its pruning. Where a change came
    /// during the run the job debounces again; else it is idle and the
    /// worker ends. Either way the metrics are refreshed.
    pub open spec fn settle(
        self,
        started_ms: u64,
        now_ms: u64,
        global_debounce: u64,
        cancelled: bool,
    ) -> Step {
        if self.changed_since(started_ms) {
            let again = JobView {
                state: JobState::Debouncing {
                    remaining_secs: self.set.effective_debounce(global_debounce),
                },
                ..self
            }.begin(now_ms, global_debounce, cancelled);
            Step { job: again.job, out: WorkerStepView { refresh_metrics: true, ..again.out } }
        } else {
            let end = JobView { state: JobState::Idle, ..self }.exit();
            Step { job: end.job, out: WorkerStepView { refresh_metrics: true, ..end.out } }
        }
    }

    /// The set to prune after a backup, with the policy in force written
    /// into it; `None` where no policy with a keep rule is in force.
    pub open spec fn auto_prune_set(self, global_retention: Option<RetentionPolicy>) -> Option<
        BackupSetView,
    > {
        match self.set.effective_retention(global_retention) {
            Some(policy) if policy.has_keep_rule() => Some(
                self.set.with_effective_retention(global_retention),
            ),
            _ => None,
        }
    }

    /// The job fails: it shows `Error`, the failure is broadcast, and the
    /// worker ends. A notification is raised unless the daemon is shutting
    /// down.
    pub open spec fn fail(self, error: Seq<char>, note: Seq<char>, cancelled: bool) -> Step {
        Step {
            job: JobView { state: JobState::Error, worker_live: false, ..self },
            out: WorkerStepView {
                phase: WorkerPhase::Done,
                directive: DirectiveView::Exit,
                events: seq![
                    ResponseDataView::BackupFailed { set_name: self.set.name, error },
                ],
                notification: if cancelled {
                    None
                } else {
                    Some(note)
                },
                refresh_metrics: false,
            },
        }
    }

    /// The step of a worker whose backup, started at `started_ms`, has
    /// returned.
    ///
    /// An aborted run fails the job. A completed run is recorded as the last
    /// backup; where it wrote no snapshot the job fails with the result's
    /// message. Where it wrote one, `BackupComplete` is broadcast; then the
    /// worker prunes if a retention policy with a keep rule is in force,
    /// and else the run is settled.
    pub open spec fn run_finished(
        self,
        started_ms: u64,
        outcome: RunOutcomeView,
        now_ms: u64,
        global_debounce: u64,
        global_retention: Option<RetentionPolicy>,
        cancelled: bool,
    ) -> Step {
        match outcome {
            RunOutcomeView::Aborted(error) => self.fail(
                error,
                abort_note(self.set.name, error),
                cancelled,
            ),
            RunOutcomeView::Completed(result) => {
                let recorded = JobView { last_backup: Some(result), ..self };
                if !result.success {
                    let error = match result.error_message {
                        Some(m) => m,
                        None => unknown_error(),
                    };
                    recorded.fail(error, failure_note(self.set.name, error), cancelled)
                } else {
                    let complete = ResponseDataView::BackupComplete {
                        set_name: self.set.name,
                        snapshot_id: result.snapshot_id,
                        added_bytes: result.added_bytes,
                        duration_secs: result.duration_secs,
                    };
                    match self.auto_prune_set(global_retention) {
                        Some(set) => Step {
                            job: recorded,
                            out: WorkerStepView {
                                phase: WorkerPhase::Prune { started_ms },
                                directive: DirectiveView::Prune { set },
                                events: seq![complete],
                                notification: None,
                                refresh_metrics: false,
                            },
                        },
                        None => {
                            let settled = recorded.settle(
                                started_ms,
                                now_ms,
                                global_debounce,
                                cancelled,
                            );
                            Step {
                                job: settled.job,
                                out: WorkerStepView { events: seq![complete], ..settled.out },
                            }
                        },
                    }
                }
            },
        }
    }

    /// The step of a worker whose pruning after the backup started at
    /// `started_ms` has returned: `PruneComplete` is broadcast where the
    /// engine pruned, and the run is settled.
    pub open spec fn prune_finished(
        self,
        started_ms: u64,
        outcome: PruneOutcomeView,
        now_ms: u64,
        global_debounce: u64,
        cancelled: bool,
    ) -> Step {
        let settled = self.settle(started_ms, now_ms, global_debounce, cancelled);
        match outcome {
            PruneOutcomeView::Reclaimed(reclaimed_bytes) => Step {
                job: settled.job,
                out: WorkerStepView {
                    events: seq![
                        ResponseDataView::PruneComplete {
                            set_name: self.set.name,
                            reclaimed_bytes,
                        },
                    ],
                    ..settled.out
                },
            },
            PruneOutcomeView::Failed(_) => settled,
        }
    }
}


/// How a job took a manual trigger.
#[derive(Clone, Copy, Debug, PartialEq, Eq, Structural)]
pub enum Trigger {
    /// The job is running and refuses the trigger.
    Refused,
    /// The job took the trigger; `spawn` says whether a worker has to be
    /// spawned for it.
    Accepted { spawn: bool },
}

fn no_events() -> (events: Vec<ResponseData>)
    ensures
        data_views(events@) == Seq::<ResponseDataView>::empty(),
{
    let events: Vec<ResponseData> = Vec::new();
    assert(data_views(events@) =~= Seq::<ResponseDataView>::empty());
    events
}

fn one_event(event: ResponseData) -> (events: Vec<ResponseData>)
    ensures
        data_views(events@) == seq![event@],
{
    let mut events: Vec<ResponseData> = Vec::new();
    events.push(event);
    assert(data_views(events@) =~= seq![event@]);
    events
}

impl Job {
    /// The job of a set that was just configured: idle, with nothing known
    /// of its repository, not mounted and without a worker.
    pub fn new(set: BackupSet) -> (job: Job)
        ensures
            job@ == JobView::fresh(set@),
    {
        Job {
            set,
            state: JobState::Idle,
            last_change: None,
            last_backup: None,
            is_mounted: false,
            mount_child: None,
            immediate_trigger: false,
            snapshot_count: None,
            total_bytes: None,
            worker_live: false,
        }
    }

    /// Takes note of a file change at `now_ms`. A job at rest starts to
    /// debounce; the result says whether a worker has to be spawned for it.
    pub fn file_change(&mut self, now_ms: u64, global_debounce: u64) -> (spawn: bool)
        ensures
            final(self)@ == old(self)@.after_file_change(now_ms, global_debounce),
            spawn == old(self)@.spawns_worker(),
    {
        self.last_change = Some(now_ms);
        match self.state {
            JobState::Idle | JobState::Error => {
                self.state = JobState::Debouncing {
                    remaining_secs: self.set.effective_debounce(global_debounce),
                };
                if !self.worker_live {
                    self.worker_live = true;
                    true
                } else {
                    false
                }
            },
            _ => false,
        }
    }

    /// Takes a manual trigger. A running job refuses it. A debouncing job
    /// starts its backup at the worker's next tick. A job at rest is running
    /// from now on; the result says whether a worker has to be spawned.
    pub fn manual_trigger(&mut self) -> (taken: Trigger)
        ensures
            final(self)@ == old(self)@.after_manual_trigger(),
            taken == (if old(self)@.state is Running {
                Trigger::Refused
            } else {
                Trigger::Accepted { spawn: old(self)@.spawns_worker() }
            }),
    {
        match self.state {
            JobState::Running => Trigger::Refused,
            JobState::Debouncing { .. } => {
                self.immediate_trigger = true;
                Trigger::Accepted { spawn: false }
            },
            _ => {
                self.state = JobState::Running;
                if !self.worker_live {
                    self.worker_live = true;
                    Trigger::Accepted { spawn: true }
                } else {
                    Trigger::Accepted { spawn: false }
                }
            },
        }
    }

    fn exit(&mut self) -> (step: WorkerStep)
        ensures
            final(self)@ == old(self)@.exit().job,
            step@ == old(self)@.exit().out,
    {
        self.worker_live = false;
        WorkerStep {
            phase: WorkerPhase::Done,
            directive: Directive::Exit,
            events: no_events(),
            notification: None,
            refresh_metrics: false,
        }
    }

    fn start_run(&self, now_ms: u64) -> (step: WorkerStep)
        ensures
            step@ == self@.start_run(now_ms).out,
    {
        WorkerStep {
            phase: WorkerPhase::Run { started_ms: now_ms },
            directive: Directive::Backup { set: self.set.clone() },
            events: no_events(),
            notification: None,
            refresh_metrics: false,
        }
    }

    /// One tick of a debouncing worker that waits since `start_ms` for
    /// `window_secs` seconds. See `JobView::tick`.
    pub fn worker_tick(
        &mut self,
        start_ms: u64,
        window_secs: u64,
        now_ms: u64,
        cancelled: bool,
    ) -> (step: WorkerStep)
        ensures
            final(self)@ == old(self)@.tick(start_ms, window_secs, now_ms, cancelled).job,
            step@ == old(self)@.tick(start_ms, window_secs, now_ms, cancelled).out,
    {
        if cancelled {
            return self.exit();
        }
        if let JobState::Running = self.state {
            return self.start_run(now_ms);
        }
        if self.immediate_trigger {
            self.immediate_trigger = false;
            self.state = JobState::Running;
            return self.start_run(now_ms);
        }
        match self.last_change {
            None => {
                self.state = JobState::Running;
                self.start_run(now_ms)
            },
            Some(changed) => {
                let start: u64 = if changed > start_ms {
                    changed
                } else {
                    start_ms
                };
                let elapsed: u64 = if now_ms >= start {
                    now_ms - start
                } else {
                    0
                };
                let whole: u64 = elapsed / 1000;
                if whole >= window_secs {
                    self.state = JobState::Running;
                    self.start_run(now_ms)
                } else {
                    let remaining: u64 = if elapsed % 1000 == 0 {
                        window_secs - whole
                    } else {
                        window_secs - whole - 1
                    };
                    assert(remaining == (window_secs * 1000 - elapsed) / 1000);
                    self.state = JobState::Debouncing { remaining_secs: remaining };
                    WorkerStep {
                        phase: WorkerPhase::Debounce { start_ms: start, window_secs },
                        directive: Directive::Sleep { millis: TICK_INTERVAL_MS },
                        events: no_events(),
                        notification: None,
                        refresh_metrics: false,
                    }
                }
            },
        }
    }

    /// The first step of a worker. See `JobView::begin`.
    pub fn worker_begin(&mut self, now_ms: u64, global_debounce: u64, cancelled: bool) -> (step:
        WorkerStep)
        ensures
            final(self)@ == old(self)@.begin(now_ms, global_debounce, cancelled).job,
            step@ == old(self)@.begin(now_ms, global_debounce, cancelled).out,
    {
        if cancelled {
            return self.exit();
        }
        if let JobState::Running = self.state {
            self.immediate_trigger = false;
            return self.start_run(now_ms);
        }
        let start: u64 = match self.last_change {
            Some(changed) => changed,
            None => now_ms,
        };
        let window = self.set.effective_debounce(global_debounce);
        self.worker_tick(start, window, now_ms, false)
    }

    /// The set to prune after a backup; `None` where no retention policy
    /// with a keep rule is in force.
    pub fn auto_prune_set(&self, global_retention: Option<RetentionPolicy>) -> (set: Option<
        BackupSet,
    >)
        ensures
            (match set {
                Some(s) => Some(s@),
                None => None,
            }) == self@.auto_prune_set(global_retention),
    {
        let effective = self.set.with_effective_retention(global_retention);
        match effective.retention {
            Some(policy) => {
                if policy.has_any_rule() {
                    Some(effective)
                } else {
                    None
                }
            },
            None => None,
        }
    }

    fn settle(&mut self, started_ms: u64, now_ms: u64, global_debounce: u64, cancelled: bool) -> (step:
        WorkerStep)
        ensures
            final(self)@ == old(self)@.settle(started_ms, now_ms, global_debounce, cancelled).job,
            step@ == old(self)@.settle(started_ms, now_ms, global_debounce, cancelled).out,
    {
        let changed = match self.last_change {
            Some(at) => at > started_ms,
            None => false,
        };
        if changed {
            self.state = JobState::Debouncing {
                remaining_secs: self.set.effective_debounce(global_debounce),
            };
            let mut step = self.worker_begin(now_ms, global_debounce, cancelled);
            step.refresh_metrics = true;
            step
        } else {
            self.state = JobState::Idle;
            let mut step = self.exit();
            step.refresh_metrics = true;
            step
        }
    }

    fn fail(&mut self, error: String, note: String, cancelled: bool) -> (step: WorkerStep)
        ensures
            final(self)@ == old(self)@.fail(error@, note@, cancelled).job,
            step@ == old(self)@.fail(error@, note@, cancelled).out,
    {
        self.state = JobState::Error;
        self.worker_live = false;
        WorkerStep {
            phase: WorkerPhase::Done,
            directive: Directive::Exit,
            events: one_event(ResponseData::BackupFailed { set_name: self.set.name.clone(), error }),
            notification: if cancelled {
                None
            } else {
                Some(note)
            },
            refresh_metrics: false,
        }
    }

    /// The step of a worker whose backup, started at `started_ms`, has
    /// returned. See `JobView::run_finished`.
    pub fn run_finished(
        &mut self,
        started_ms: u64,
        outcome: RunOutcome,
        now_ms: u64,
        global_debounce: u64,
        global_retention: Option<RetentionPolicy>,
        cancelled: bool,
    ) -> (step: WorkerStep)
        ensures
            final(self)@ == old(self)@.run_finished(
                started_ms,
                outcome@,
                now_ms,
                global_debounce,
                global_retention,
                cancelled,
            ).job,
            step@ == old(self)@.run_finished(
                started_ms,
                outcome@,
                now_ms,
                global_debounce,
                global_retention,
                cancelled,
            ).out,
    {
        match outcome {
            RunOutcome::Aborted(error) => {
                let note = String::from_str("Internal error backing up set '").concat(
                    self.set.name.as_str(),
                ).concat("': ").concat(error.as_str());
                self.fail(error, note, cancelled)
            },
            RunOutcome::Completed(result) => {
                if !result.success {
                    let error = match &result.error_message {
                        Some(m) => m.clone(),
                        None => String::from_str("Unknown error"),
                    };
                    let note = String::from_str("Backup for set '").concat(
                        self.set.name.as_str(),
                    ).concat("' failed: ").concat(error.as_str());
                    self.last_backup = Some(result);
                    self.fail(error, note, cancelled)
                } else {
                    let complete = ResponseData::BackupComplete {
                        set_name: self.set.name.clone(),
                        snapshot_id: result.snapshot_id.clone(),
                        added_bytes: result.added_bytes,
                        duration_secs: result.duration_secs,
                    };
                    self.last_backup = Some(result);
                    match self.auto_prune_set(global_retention) {
                        Some(set) => WorkerStep {
                            phase: WorkerPhase::Prune { started_ms },
                            directive: Directive::Prune { set },
                            events: one_event(complete),
                            notification: None,
                            refresh_metrics: false,
                        },
                        None => {
                            let mut step = self.settle(
                                started_ms,
                                now_ms,
                                global_debounce,
                                cancelled,
                            );
                            step.events = one_event(complete);
                            step
                        },
                    }
                }
            },
        }
    }

    /// The step of a worker whose pruning after the backup started at
    /// `started_ms` has returned. See `JobView::prune_finished`.
    pub fn prune_finished(
        &mut self,
        started_ms: u64,
        outcome: PruneOutcome,
        now_ms: u64,
        global_debounce: u64,
        cancelled: bool,
    ) -> (step: WorkerStep)
        ensures
            final(self)@ == old(self)@.prune_finished(
                started_ms,
                outcome@,
                now_ms,
                global_debounce,
                cancelled,
            ).job,
            step@ == old(self)@.prune_finished(
                started_ms,
                outcome@,
                now_ms,
                global_debounce,
                cancelled,
            ).out,
    {
        let name = self.set.name.clone();
        let mut step = self.settle(started_ms, now_ms, global_debounce, cancelled);
        match outcome {
            PruneOutcome::Reclaimed(reclaimed_bytes) => {
                step.events = one_event(
                    ResponseData::PruneComplete { set_name: name, reclaimed_bytes },
                );
                step
            },
            PruneOutcome::Failed(_) => step,
        }
    }
}

} // verus!
