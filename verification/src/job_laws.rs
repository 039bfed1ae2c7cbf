//! What holds of the job state machine whatever its inputs are.

use crate::config::{BackupSetView, RetentionPolicy};
use crate::job::{
    DirectiveView, JobView, PruneOutcomeView, RunOutcomeView, Step, WorkerPhase, TICK_INTERVAL_MS,
};
use vstd::prelude::*;

verus! {

/// The job after the file changes at the instants `changes`, in order.
pub open spec fn after_file_changes(job: JobView, changes: Seq<u64>, global_debounce: u64) -> JobView
    decreases changes.len(),
{
    if changes.len() == 0 {
        job
    } else {
        after_file_changes(job, changes.drop_last(), global_debounce).after_file_change(
            changes.last(),
            global_debounce,
        )
    }
}

proof fn lemma_file_changes_record_last(job: JobView, changes: Seq<u64>, global_debounce: u64)
    requires
        !(job.state is Running),
        !job.immediate_trigger,
    ensures
        ({
            let after = after_file_changes(job, changes, global_debounce);
            &&& !(after.state is Running)
            &&& !after.immediate_trigger
            &&& after.set == job.set
            &&& changes.len() > 0 ==> after.last_change == Some(changes.last())
                && after.state is Debouncing
        }),
    decreases changes.len(),
{
    if changes.len() > 0 {
        lemma_file_changes_record_last(job, changes.drop_last(), global_debounce);
    }
}

/// Debouncing is not cut short: after any sequence of file changes, the
/// worker of a job that was not triggered by hand starts the backup no
/// sooner than the debounce window after the last of the changes. This
/// holds of a tick with any window, and of the worker's first step with the
/// debounce delay in force, at any instant that is not before that change.
pub proof fn lemma_backup_waits_for_quiet(
    job: JobView,
    changes: Seq<u64>,
    global_debounce: u64,
    start_ms: u64,
    window_secs: u64,
    now_ms: u64,
)
    requires
        changes.len() > 0,
        !(job.state is Running),
        !job.immediate_trigger,
        now_ms >= changes.last(),
    ensures
        ({
            let after = after_file_changes(job, changes, global_debounce);
            let ticked = after.tick(start_ms, window_secs, now_ms, false);
            let begun = after.begin(now_ms, global_debounce, false);
            &&& ticked.job.state is Running ==> now_ms >= changes.last() + window_secs * 1000
            &&& begun.job.state is Running ==> now_ms >= changes.last()
                + job.set.effective_debounce(global_debounce) * 1000
        }),
{
    lemma_file_changes_record_last(job, changes, global_debounce);
}

/// A change restarts the wait: once a change has come at `changed_ms`, not
/// before the worker's wait began, the backup of a job that was not
/// triggered by hand starts exactly at the later ticks that are a full
/// window after that change. So a change one millisecond before the window would
/// have run out moves the start by a full window less that millisecond.
pub proof fn lemma_change_restarts_window(
    job: JobView,
    global_debounce: u64,
    start_ms: u64,
    window_secs: u64,
    changed_ms: u64,
    now_ms: u64,
)
    requires
        !(job.state is Running),
        !job.immediate_trigger,
        changed_ms >= start_ms,
        now_ms >= changed_ms,
    ensures
        ({
            let step = job.after_file_change(changed_ms, global_debounce).tick(
                start_ms,
                window_secs,
                now_ms,
                false,
            );
            &&& step.job.state is Running <==> now_ms >= changed_ms + window_secs * 1000
            &&& step.job.state is Running <==> step.out.directive is Backup
            &&& !(step.job.state is Running) ==> step.out.phase == (WorkerPhase::Debounce {
                start_ms: changed_ms,
                window_secs,
            })
        }),
{
}

/// A manual trigger overrides the wait: the first tick after a debouncing
/// job was triggered starts the backup, whatever the instant, and a
/// debouncing worker never sleeps longer than one tick interval before
/// that tick.
pub proof fn lemma_trigger_takes_effect_at_next_tick(
    job: JobView,
    start_ms: u64,
    window_secs: u64,
    now_ms: u64,
)
    requires
        job.state is Debouncing,
    ensures
        ({
            let step = job.after_manual_trigger().tick(start_ms, window_secs, now_ms, false);
            &&& step.job.state is Running
            &&& !step.job.immediate_trigger
            &&& step.out.directive == (DirectiveView::Backup { set: job.set })
            &&& step.out.phase == (WorkerPhase::Run { started_ms: now_ms })
        }),
        job.tick(start_ms, window_secs, now_ms, false).out.directive is Sleep ==> job.tick(
            start_ms,
            window_secs,
            now_ms,
            false,
        ).out.directive->millis == TICK_INTERVAL_MS,
{
}

/// What can happen to a job and its workers.
pub enum JobInput {
    /// A file of the set changed.
    FileChange { now_ms: u64, global_debounce: u64 },
    /// A client asked for a backup.
    ManualTrigger,
    /// The worker at index `worker` takes the step that its phase calls
    /// for; `run` and `prune` are what the engine returned, read where the
    /// phase is `Run` or `Prune`.
    WorkerStep {
        worker: int,
        now_ms: u64,
        global_debounce: u64,
        global_retention: Option<RetentionPolicy>,
        cancelled: bool,
        run: RunOutcomeView,
        prune: PruneOutcomeView,
    },
}

/// A job together with the phases of the worker tasks that exist for it.
pub struct Supervised {
    pub job: JobView,
    pub workers: Seq<WorkerPhase>,
}

/// The step that a worker in `phase` takes.
pub open spec fn worker_step(
    job: JobView,
    phase: WorkerPhase,
    now_ms: u64,
    global_debounce: u64,
    global_retention: Option<RetentionPolicy>,
    cancelled: bool,
    run: RunOutcomeView,
    prune: PruneOutcomeView,
) -> Step {
    match phase {
        WorkerPhase::Starting => job.begin(now_ms, global_debounce, cancelled),
        WorkerPhase::Debounce { start_ms, window_secs } => job.tick(
            start_ms,
            window_secs,
            now_ms,
            cancelled,
        ),
        WorkerPhase::Run { started_ms } => job.run_finished(
            started_ms,
            run,
            now_ms,
            global_debounce,
            global_retention,
            cancelled,
        ),
        WorkerPhase::Prune { started_ms } => job.prune_finished(
            started_ms,
            prune,
            now_ms,
            global_debounce,
            cancelled,
        ),
        WorkerPhase::Done => job.exit(),
    }
}

impl Supervised {
    /// A job that was just configured; no worker exists.
    pub open spec fn initial(set: BackupSetView) -> Supervised {
        Supervised { job: JobView::fresh(set), workers: Seq::empty() }
    }

    /// The job and its workers after `input`. A worker is added where the
    /// job asks for one to be spawned, and leaves when its step ends it.
    pub open spec fn next(self, input: JobInput) -> Supervised {
        match input {
            JobInput::FileChange { now_ms, global_debounce } => Supervised {
                job: self.job.after_file_change(now_ms, global_debounce),
                workers: if self.job.spawns_worker() {
                    self.workers.push(WorkerPhase::Starting)
                } else {
                    self.workers
                },
            },
            JobInput::ManualTrigger => Supervised {
                job: self.job.after_manual_trigger(),
                workers: if self.job.spawns_worker() {
                    self.workers.push(WorkerPhase::Starting)
                } else {
                    self.workers
                },
            },
            JobInput::WorkerStep {
                worker,
                now_ms,
                global_debounce,
                global_retention,
                cancelled,
                run,
                prune,
            } => {
                if 0 <= worker < self.workers.len() {
                    let step = worker_step(
                        self.job,
                        self.workers[worker],
                        now_ms,
                        global_debounce,
                        global_retention,
                        cancelled,
                        run,
                        prune,
                    );
                    Supervised {
                        job: step.job,
                        workers: if step.out.phase is Done {
                            self.workers.remove(worker)
                        } else {
                            self.workers.update(worker, step.out.phase)
                        },
                    }
                } else {
                    self
                }
            },
        }
    }

    /// The job and its workers after the inputs `inputs`, in order.
    pub open spec fn run(self, inputs: Seq<JobInput>) -> Supervised
        decreases inputs.len(),
    {
        if inputs.len() == 0 {
            self
        } else {
            self.run(inputs.drop_last()).next(inputs.last())
        }
    }

    /// The job's flag tells whether a worker exists, there is never more
    /// than one, and none that has ended is counted.
    pub open spec fn one_worker_at_most(self) -> bool {
        &&& self.workers.len() == (if self.job.worker_live {
            1nat
        } else {
            0nat
        })
        &&& forall|i: int| 0 <= i < self.workers.len() ==> !(#[trigger] self.workers[i] is Done)
    }
}

/// Whether the daemon is shutting down at none of the inputs.
pub open spec fn never_cancelled(inputs: Seq<JobInput>) -> bool {
    forall|i: int|
        0 <= i < inputs.len() ==> (#[trigger] inputs[i] matches JobInput::WorkerStep {
            cancelled,
            ..
        } ==> !cancelled)
}

/// A step of a live worker either ends it and clears the job's flag, or
/// leaves the flag as it is; a step that is not cancelled leaves no job
/// debouncing or running without its worker.
proof fn lemma_worker_step_flag(
    job: JobView,
    phase: WorkerPhase,
    now_ms: u64,
    global_debounce: u64,
    global_retention: Option<RetentionPolicy>,
    cancelled: bool,
    run: RunOutcomeView,
    prune: PruneOutcomeView,
)
    requires
        job.worker_live,
        !(phase is Done),
    ensures
        ({
            let step = worker_step(
                job,
                phase,
                now_ms,
                global_debounce,
                global_retention,
                cancelled,
                run,
                prune,
            );
            &&& step.job.worker_live == !(step.out.phase is Done)
            &&& !cancelled ==> step.job.attended()
        }),
{
}

/// At most one worker: whatever happens to a job from the moment it is
/// configured, at most one worker task exists for it, and one exists
/// exactly while the job's `worker_live` is set. As long as the daemon is
/// not shutting down, a job that is debouncing or running has its worker.
pub proof fn lemma_at_most_one_worker(set: BackupSetView, inputs: Seq<JobInput>)
    ensures
        ({
            let now = Supervised::initial(set).run(inputs);
            &&& now.one_worker_at_most()
            &&& now.workers.len() <= 1
            &&& now.job.worker_live <==> now.workers.len() == 1
            &&& never_cancelled(inputs) ==> now.job.attended()
        }),
    decreases inputs.len(),
{
    let start = Supervised::initial(set);
    if inputs.len() > 0 {
        let before = start.run(inputs.drop_last());
        lemma_at_most_one_worker(set, inputs.drop_last());
        assert(before.one_worker_at_most());
        if never_cancelled(inputs) {
            assert forall|i: int| 0 <= i < inputs.drop_last().len() implies (
            #[trigger] inputs.drop_last()[i] matches JobInput::WorkerStep { cancelled, .. }
                ==> !cancelled) by {
                assert(inputs.drop_last()[i] == inputs[i]);
            }
            assert(before.job.attended());
        }
        match inputs.last() {
            JobInput::WorkerStep {
                worker,
                now_ms,
                global_debounce,
                global_retention,
                cancelled,
                run,
                prune,
            } => {
                if 0 <= worker < before.workers.len() {
                    lemma_worker_step_flag(
                        before.job,
                        before.workers[worker],
                        now_ms,
                        global_debounce,
                        global_retention,
                        cancelled,
                        run,
                        prune,
                    );
                    if never_cancelled(inputs) {
                        assert(inputs[inputs.len() - 1] == inputs.last());
                        assert(!cancelled);
                    }
                }
            },
            _ => {},
        }
    }
}


/// The last change follows the clock: a file change records its instant,
/// so the recorded instant moves forward exactly as the clock does, and
/// no step of a worker touches it.
pub proof fn lemma_last_change_follows_clock(
    job: JobView,
    now_ms: u64,
    global_debounce: u64,
    phase: WorkerPhase,
    global_retention: Option<RetentionPolicy>,
    cancelled: bool,
    run: RunOutcomeView,
    prune: PruneOutcomeView,
)
    ensures
        job.after_file_change(now_ms, global_debounce).last_change == Some(now_ms),
        job.last_change is Some && now_ms > job.last_change->0 ==> job.after_file_change(
            now_ms,
            global_debounce,
        ).last_change->0 > job.last_change->0,
        job.after_manual_trigger().last_change == job.last_change,
        worker_step(
            job,
            phase,
            now_ms,
            global_debounce,
            global_retention,
            cancelled,
            run,
            prune,
        ).job.last_change == job.last_change,
{
}

} // verus!
