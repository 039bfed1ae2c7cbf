//! The job manager: the jobs of all configured backup sets, found by name.
//!
//! The manager holds no lock and starts no task. The daemon keeps it behind
//! its one mutex and calls it with the mutex held; what has to happen
//! outside the mutex (engine calls, probing processes and the mount table,
//! walking directories) the daemon does itself and hands the manager what
//! it found.

use crate::config::{set_views, BackupSet, BackupSetView, Config, RetentionPolicy};
use crate::ipc::text_pairs;
use crate::job::{Job, JobView, PruneOutcome, RunOutcome, Trigger, WorkerStep, WorkerStepView};
use crate::mount::{ChildProbe, HelperOutcome};
use crate::text::{chars_of, contains, contains_text, texts};
use crate::types::{
    clone_opt_result, snapshot_views, status_views, BackupResult, BackupResultView, JobState,
    Seconds, SetStatus, SetStatusView, SnapshotInfo, SnapshotInfoView,
};
use vstd::prelude::*;
use vstd::string::StringExecFns;

verus! {

/// The views of the jobs of `v`, in order.
pub open spec fn job_views(v: Seq<Job>) -> Seq<JobView> {
    Seq::new(v.len(), |i: int| v[i]@)
}

/// Whether no two jobs have the same name.
pub open spec fn unique_names(jobs: Seq<JobView>) -> bool {
    forall|i: int, j: int|
        0 <= i < j < jobs.len() ==> (#[trigger] jobs[i]).set.name != (#[trigger] jobs[j]).set.name
}

/// Whether every job is well formed.
pub open spec fn all_well_formed(jobs: Seq<JobView>) -> bool {
    forall|i: int| 0 <= i < jobs.len() ==> (#[trigger] jobs[i]).well_formed()
}

/// The index of the first job named `name`, if there is one.
pub open spec fn find_job(jobs: Seq<JobView>, name: Seq<char>) -> Option<int>
    decreases jobs.len(),
{
    if jobs.len() == 0 {
        None
    } else {
        match find_job(jobs.drop_last(), name) {
            Some(i) => Some(i),
            None => if jobs.last().set.name == name {
                Some(jobs.len() - 1)
            } else {
                None
            },
        }
    }
}

/// Whether a set of `sets` is named `name`.
pub open spec fn names_set(sets: Seq<BackupSetView>, name: Seq<char>) -> bool {
    exists|k: int| 0 <= k < sets.len() && (#[trigger] sets[k]).name == name
}

/// The names of the jobs, as a set.
pub open spec fn job_names(jobs: Seq<JobView>) -> Set<Seq<char>> {
    Set::new(|name: Seq<char>| exists|i: int| 0 <= i < jobs.len() && (#[trigger] jobs[i]).set.name == name)
}

/// The names of the sets, as a set.
pub open spec fn set_names(sets: Seq<BackupSetView>) -> Set<Seq<char>> {
    Set::new(|name: Seq<char>| names_set(sets, name))
}

/// The jobs whose set is still among `wanted`, in order.
pub open spec fn kept_jobs(jobs: Seq<JobView>, wanted: Seq<BackupSetView>) -> Seq<JobView>
    decreases jobs.len(),
{
    if jobs.len() == 0 {
        Seq::empty()
    } else if names_set(wanted, jobs.last().set.name) {
        kept_jobs(jobs.drop_last(), wanted).push(jobs.last())
    } else {
        kept_jobs(jobs.drop_last(), wanted)
    }
}

/// A mount that has to be taken down.
#[derive(Debug)]
pub struct Teardown {
    /// Name of the set.
    pub name: String,
    /// The mount process that was tracked for it, if any.
    pub mount_child: Option<u32>,
    /// Whether the set's backup is running, which the unmount may disturb.
    pub backup_running: bool,
}

/// What a `Teardown` holds, as mathematical values.
pub struct TeardownView {
    pub name: Seq<char>,
    pub mount_child: Option<u32>,
    pub backup_running: bool,
}

impl View for Teardown {
    type V = TeardownView;

    open spec fn view(&self) -> TeardownView {
        TeardownView {
            name: self.name@,
            mount_child: self.mount_child,
            backup_running: self.backup_running,
        }
    }
}

/// The views of the teardowns of `v`, in order.
pub open spec fn teardown_views(v: Seq<Teardown>) -> Seq<TeardownView> {
    Seq::new(v.len(), |i: int| v[i]@)
}

/// The mounts of the jobs whose set is no longer among `wanted`, in order.
pub open spec fn stale_mounts(jobs: Seq<JobView>, wanted: Seq<BackupSetView>) -> Seq<
    TeardownView,
>
    decreases jobs.len(),
{
    if jobs.len() == 0 {
        Seq::empty()
    } else if !names_set(wanted, jobs.last().set.name) && jobs.last().is_mounted {
        stale_mounts(jobs.drop_last(), wanted).push(
            TeardownView {
                name: jobs.last().set.name,
                mount_child: jobs.last().mount_child,
                backup_running: jobs.last().state is Running,
            },
        )
    } else {
        stale_mounts(jobs.drop_last(), wanted)
    }
}

impl JobView {
    /// The job with a new configuration of its set. Where the target
    /// changed, what was known of the old repository is forgotten.
    pub open spec fn reconfigured(self, set: BackupSetView) -> JobView {
        if self.set.target != set.target {
            JobView { set, last_backup: None, snapshot_count: None, total_bytes: None, ..self }
        } else {
            JobView { set, ..self }
        }
    }
}

/// The jobs with `set` taken in: the job of that name gets the new
/// configuration, and where there is none a fresh job is added at the end.
pub open spec fn upsert(jobs: Seq<JobView>, set: BackupSetView) -> Seq<JobView> {
    match find_job(jobs, set.name) {
        Some(i) => jobs.update(i, jobs[i].reconfigured(set)),
        None => jobs.push(JobView::fresh(set)),
    }
}

/// The jobs with every set of `sets` taken in, in order.
pub open spec fn upsert_all(jobs: Seq<JobView>, sets: Seq<BackupSetView>) -> Seq<JobView>
    decreases sets.len(),
{
    if sets.len() == 0 {
        jobs
    } else {
        upsert(upsert_all(jobs, sets.drop_last()), sets.last())
    }
}

/// The jobs after the configuration was replaced by the sets `wanted`: the
/// jobs of the sets that are gone are dropped, and every wanted set is
/// taken in.
pub open spec fn synced(jobs: Seq<JobView>, wanted: Seq<BackupSetView>) -> Seq<JobView> {
    upsert_all(kept_jobs(jobs, wanted), wanted)
}

/// The names of the sets, in order.
pub open spec fn names_of(sets: Seq<BackupSetView>) -> Seq<Seq<char>> {
    Seq::new(sets.len(), |i: int| sets[i].name)
}

/// `find_job` finds the first job of the name, and only a job of the name.
pub proof fn lemma_find_job(jobs: Seq<JobView>, name: Seq<char>)
    ensures
        match find_job(jobs, name) {
            Some(i) => {
                &&& 0 <= i < jobs.len()
                &&& jobs[i].set.name == name
                &&& forall|k: int| 0 <= k < i ==> (#[trigger] jobs[k]).set.name != name
            },
            None => forall|k: int| 0 <= k < jobs.len() ==> (#[trigger] jobs[k]).set.name != name,
        },
    decreases jobs.len(),
{
    if jobs.len() > 0 {
        lemma_find_job(jobs.drop_last(), name);
        match find_job(jobs.drop_last(), name) {
            Some(i) => {
                assert(jobs.drop_last()[i] == jobs[i]);
                assert forall|k: int| 0 <= k < i implies (#[trigger] jobs[k]).set.name != name by {
                    assert(jobs.drop_last()[k] == jobs[k]);
                }
            },
            None => {
                assert forall|k: int| 0 <= k < jobs.len() - 1 implies (
                #[trigger] jobs[k]).set.name != name by {
                    assert(jobs.drop_last()[k] == jobs[k]);
                }
            },
        }
    }
}

/// Every kept job is one of the jobs, and its set is wanted.
pub proof fn lemma_kept_members(jobs: Seq<JobView>, wanted: Seq<BackupSetView>)
    ensures
        forall|k: int|
            0 <= k < kept_jobs(jobs, wanted).len() ==> names_set(
                wanted,
                (#[trigger] kept_jobs(jobs, wanted)[k]).set.name,
            ) && exists|i: int| 0 <= i < jobs.len() && jobs[i] == kept_jobs(jobs, wanted)[k],
        forall|i: int|
            0 <= i < jobs.len() && names_set(wanted, (#[trigger] jobs[i]).set.name) ==> exists|
                k: int,
            |
                0 <= k < kept_jobs(jobs, wanted).len() && kept_jobs(jobs, wanted)[k] == jobs[i],
    decreases jobs.len(),
{
    if jobs.len() > 0 {
        let head = jobs.drop_last();
        lemma_kept_members(head, wanted);
        let kept = kept_jobs(jobs, wanted);
        let kept_head = kept_jobs(head, wanted);
        assert forall|k: int| 0 <= k < kept.len() implies names_set(
            wanted,
            (#[trigger] kept[k]).set.name,
        ) && exists|i: int| 0 <= i < jobs.len() && jobs[i] == kept[k] by {
            if k < kept_head.len() {
                assert(kept[k] == kept_head[k]);
                let i = choose|i: int| 0 <= i < head.len() && head[i] == kept_head[k];
                assert(jobs[i] == kept[k]);
            } else {
                assert(jobs[jobs.len() - 1] == kept[k]);
            }
        }
        assert forall|i: int|
            0 <= i < jobs.len() && names_set(wanted, (#[trigger] jobs[i]).set.name) implies exists|
            k: int,
        |
            0 <= k < kept.len() && kept[k] == jobs[i] by {
            if i < head.len() {
                assert(head[i] == jobs[i]);
                let k = choose|k: int| 0 <= k < kept_head.len() && kept_head[k] == head[i];
                assert(kept[k] == jobs[i]);
            } else {
                assert(kept[kept.len() - 1] == jobs[i]);
            }
        }
    }
}

/// Dropping jobs keeps the names unique and the jobs well formed.
pub proof fn lemma_kept_valid(jobs: Seq<JobView>, wanted: Seq<BackupSetView>)
    requires
        unique_names(jobs),
        all_well_formed(jobs),
    ensures
        unique_names(kept_jobs(jobs, wanted)),
        all_well_formed(kept_jobs(jobs, wanted)),
    decreases jobs.len(),
{
    if jobs.len() > 0 {
        let head = jobs.drop_last();
        assert(unique_names(head)) by {
            assert forall|i: int, j: int| 0 <= i < j < head.len() implies (#[trigger] head[i]).set.name
                != (#[trigger] head[j]).set.name by {
                assert(head[i] == jobs[i]);
                assert(head[j] == jobs[j]);
            }
        }
        assert(all_well_formed(head)) by {
            assert forall|i: int| 0 <= i < head.len() implies (#[trigger] head[i]).well_formed() by {
                assert(head[i] == jobs[i]);
            }
        }
        lemma_kept_valid(head, wanted);
        lemma_kept_members(head, wanted);
        let kept = kept_jobs(jobs, wanted);
        let kept_head = kept_jobs(head, wanted);
        if names_set(wanted, jobs.last().set.name) {
            assert forall|i: int, j: int| 0 <= i < j < kept.len() implies (#[trigger] kept[i]).set.name
                != (#[trigger] kept[j]).set.name by {
                if j < kept_head.len() {
                    assert(kept[i] == kept_head[i]);
                    assert(kept[j] == kept_head[j]);
                } else {
                    assert(kept[i] == kept_head[i]);
                    let at = choose|at: int| 0 <= at < head.len() && head[at] == kept_head[i];
                    assert(jobs[at] == head[at]);
                    assert(jobs[jobs.len() - 1] == kept[j]);
                }
            }
            assert forall|i: int| 0 <= i < kept.len() implies (#[trigger] kept[i]).well_formed() by {
                if i < kept_head.len() {
                    assert(kept[i] == kept_head[i]);
                } else {
                    assert(kept[i] == jobs[jobs.len() - 1]);
                }
            }
        }
    }
}

/// Taking a set in keeps the names unique and the jobs well formed, keeps
/// every name that was there and adds the set's.
pub proof fn lemma_upsert(jobs: Seq<JobView>, set: BackupSetView)
    requires
        unique_names(jobs),
        all_well_formed(jobs),
    ensures
        unique_names(upsert(jobs, set)),
        all_well_formed(upsert(jobs, set)),
        job_names(upsert(jobs, set)) == job_names(jobs).insert(set.name),
{
    lemma_find_job(jobs, set.name);
    let after = upsert(jobs, set);
    match find_job(jobs, set.name) {
        Some(at) => {
            assert forall|i: int| 0 <= i < after.len() implies (#[trigger] after[i]).set.name
                == jobs[i].set.name by {}
            assert forall|i: int, j: int| 0 <= i < j < after.len() implies (#[trigger] after[i]).set.name
                != (#[trigger] after[j]).set.name by {
                assert(jobs[i].set.name != jobs[j].set.name);
            }
            assert forall|i: int| 0 <= i < after.len() implies (#[trigger] after[i]).well_formed() by {
                assert(jobs[i].well_formed());
            }
            assert forall|name: Seq<char>| job_names(after).contains(name) <==> job_names(jobs).insert(
                set.name,
            ).contains(name) by {
                if job_names(after).contains(name) {
                    let i = choose|i: int| 0 <= i < after.len() && (#[trigger] after[i]).set.name == name;
                    assert(jobs[i].set.name == name);
                }
                if job_names(jobs).insert(set.name).contains(name) {
                    if name == set.name {
                        assert(after[at].set.name == name);
                    } else {
                        let i = choose|i: int| 0 <= i < jobs.len() && (#[trigger] jobs[i]).set.name == name;
                        assert(after[i].set.name == name);
                    }
                }
            }
        },
        None => {
            assert forall|i: int, j: int| 0 <= i < j < after.len() implies (#[trigger] after[i]).set.name
                != (#[trigger] after[j]).set.name by {
                if j < jobs.len() {
                    assert(jobs[i].set.name != jobs[j].set.name);
                } else {
                    assert(after[i] == jobs[i]);
                }
            }
            assert forall|i: int| 0 <= i < after.len() implies (#[trigger] after[i]).well_formed() by {
                if i < jobs.len() {
                    assert(after[i] == jobs[i]);
                }
            }
            assert forall|name: Seq<char>| job_names(after).contains(name) <==> job_names(jobs).insert(
                set.name,
            ).contains(name) by {
                if job_names(after).contains(name) {
                    let i = choose|i: int| 0 <= i < after.len() && (#[trigger] after[i]).set.name == name;
                    if i < jobs.len() {
                        assert(jobs[i] == after[i]);
                    }
                }
                if job_names(jobs).insert(set.name).contains(name) {
                    if name == set.name {
                        assert(after[after.len() - 1].set.name == name);
                    } else {
                        let i = choose|i: int| 0 <= i < jobs.len() && (#[trigger] jobs[i]).set.name == name;
                        assert(after[i].set.name == name);
                    }
                }
            }
        },
    }
    assert(job_names(after) =~= job_names(jobs).insert(set.name));
}

/// Taking sets in keeps the names unique and the jobs well formed, and
/// adds exactly the names of the sets.
pub proof fn lemma_upsert_all(jobs: Seq<JobView>, sets: Seq<BackupSetView>)
    requires
        unique_names(jobs),
        all_well_formed(jobs),
    ensures
        unique_names(upsert_all(jobs, sets)),
        all_well_formed(upsert_all(jobs, sets)),
        job_names(upsert_all(jobs, sets)) == job_names(jobs).union(set_names(sets)),
    decreases sets.len(),
{
    if sets.len() == 0 {
        assert(job_names(jobs) =~= job_names(jobs).union(set_names(sets)));
    } else {
        let head = sets.drop_last();
        lemma_upsert_all(jobs, head);
        lemma_upsert(upsert_all(jobs, head), sets.last());
        assert forall|name: Seq<char>| set_names(sets).contains(name) <==> set_names(head).insert(
            sets.last().name,
        ).contains(name) by {
            if names_set(sets, name) {
                let k = choose|k: int| 0 <= k < sets.len() && (#[trigger] sets[k]).name == name;
                if k < head.len() {
                    assert(head[k] == sets[k]);
                }
            }
            if names_set(head, name) {
                let k = choose|k: int| 0 <= k < head.len() && (#[trigger] head[k]).name == name;
                assert(sets[k] == head[k]);
            }
            if name == sets.last().name {
                assert(sets[sets.len() - 1].name == name);
            }
        }
        assert(job_names(upsert_all(jobs, sets)) =~= job_names(jobs).union(set_names(sets)));
    }
}

/// After the configuration was replaced, the jobs are those of the
/// configured sets: the set of job names equals the set of set names, no
/// two jobs share a name, and every job is well formed.
pub proof fn lemma_synced_names(jobs: Seq<JobView>, wanted: Seq<BackupSetView>)
    requires
        unique_names(jobs),
        all_well_formed(jobs),
    ensures
        job_names(synced(jobs, wanted)) == set_names(wanted),
        unique_names(synced(jobs, wanted)),
        all_well_formed(synced(jobs, wanted)),
{
    lemma_kept_valid(jobs, wanted);
    lemma_kept_members(jobs, wanted);
    lemma_upsert_all(kept_jobs(jobs, wanted), wanted);
    let kept = kept_jobs(jobs, wanted);
    assert forall|name: Seq<char>| job_names(kept).contains(name) implies set_names(wanted).contains(
        name,
    ) by {
        let i = choose|i: int| 0 <= i < kept.len() && (#[trigger] kept[i]).set.name == name;
        assert(names_set(wanted, kept[i].set.name));
    }
    assert(job_names(kept).union(set_names(wanted)) =~= set_names(wanted));
}


/// Why the manager refused a request.
#[derive(Debug)]
pub enum ManagerError {
    /// No backup set of this name is configured.
    UnknownSet(String),
    /// The backup of the set of this name is already running.
    AlreadyRunning(String),
}

/// What a `ManagerError` holds, as mathematical values.
pub enum ManagerErrorView {
    UnknownSet(Seq<char>),
    AlreadyRunning(Seq<char>),
}

impl View for ManagerError {
    type V = ManagerErrorView;

    open spec fn view(&self) -> ManagerErrorView {
        match *self {
            ManagerError::UnknownSet(name) => ManagerErrorView::UnknownSet(name@),
            ManagerError::AlreadyRunning(name) => ManagerErrorView::AlreadyRunning(name@),
        }
    }
}

impl ManagerErrorView {
    /// The message of the error as it is shown to users.
    pub open spec fn message(self) -> Seq<char> {
        match self {
            ManagerErrorView::UnknownSet(name) => "Unknown backup set: "@ + name,
            ManagerErrorView::AlreadyRunning(name) => "Backup for set "@ + name
                + " is already running"@,
        }
    }
}

impl ManagerError {
    /// The message of the error as it is shown to users.
    pub fn message(&self) -> (out: String)
        ensures
            out@ == self@.message(),
    {
        match self {
            ManagerError::UnknownSet(name) => String::from_str("Unknown backup set: ").concat(
                name.as_str(),
            ),
            ManagerError::AlreadyRunning(name) => String::from_str("Backup for set ").concat(
                name.as_str(),
            ).concat(" is already running"),
        }
    }
}

/// What the daemon has to do after the configuration was replaced.
#[derive(Debug)]
pub struct SyncPlan {
    /// The mounts of the removed sets, to be taken down.
    pub unmount: Vec<Teardown>,
    /// The sets whose metrics are to be refreshed off the caller's task.
    pub refresh: Vec<String>,
}

/// The jobs of all configured backup sets and the global settings.
pub struct JobManager {
    jobs: Vec<Job>,
    global_retention: Option<RetentionPolicy>,
    global_debounce: u64,
}

/// What a `JobManager` holds, as mathematical values.
pub struct JobManagerView {
    pub jobs: Seq<JobView>,
    pub global_retention: Option<RetentionPolicy>,
    pub global_debounce: u64,
}

impl JobManagerView {
    /// No two jobs share a name, and every job is well formed.
    pub open spec fn valid(self) -> bool {
        unique_names(self.jobs) && all_well_formed(self.jobs)
    }

    /// The manager with the job at index `i` replaced by `job`.
    pub open spec fn with_job(self, i: int, job: JobView) -> JobManagerView {
        JobManagerView { jobs: self.jobs.update(i, job), ..self }
    }
}

impl View for JobManager {
    type V = JobManagerView;

    closed spec fn view(&self) -> JobManagerView {
        JobManagerView {
            jobs: job_views(self.jobs@),
            global_retention: self.global_retention,
            global_debounce: self.global_debounce,
        }
    }
}

/// The index of the first job named `name`, if there is one.
fn position(jobs: &Vec<Job>, name: &str) -> (found: Option<usize>)
    ensures
        match found {
            Some(i) => find_job(job_views(jobs@), name@) == Some(i as int) && i < jobs.len(),
            None => find_job(job_views(jobs@), name@) is None,
        },
{
    let key = String::from_str(name);
    let ghost views = job_views(jobs@);
    let mut i: usize = 0;
    while i < jobs.len()
        invariant
            i <= jobs.len(),
            key@ == name@,
            views == job_views(jobs@),
            forall|k: int| 0 <= k < i ==> (#[trigger] views[k]).set.name != name@,
        decreases jobs.len() - i,
    {
        assert(views[i as int] == jobs@[i as int]@);
        if jobs[i].set.name == key {
            proof {
                lemma_find_job(views, name@);
            }
            return Some(i);
        }
        i += 1;
    }
    proof {
        lemma_find_job(views, name@);
    }
    None
}

impl JobManager {
    #[verifier::type_invariant]
    spec fn coherent(self) -> bool {
        unique_names(job_views(self.jobs@)) && all_well_formed(job_views(self.jobs@))
    }

    /// The manager of the sets of `config`: every job is fresh. Of sets
    /// that share a name the last one counts.
    pub fn new(config: &Config) -> (manager: JobManager)
        ensures
            manager@.jobs == synced(Seq::empty(), config@.backup_sets),
            manager@.global_retention == config@.global.retention,
            manager@.global_debounce == config@.global.debounce_seconds,
            job_names(manager@.jobs) == set_names(config@.backup_sets),
            manager@.valid(),
    {
        let mut manager = JobManager {
            jobs: Vec::new(),
            global_retention: config.global.retention,
            global_debounce: config.global.debounce_seconds,
        };
        assert(job_views(manager.jobs@) =~= Seq::<JobView>::empty());
        let _ = manager.sync_config(config);
        manager
    }

    /// Replaces the configuration.
    ///
    /// The jobs of the sets that `config` no longer names are dropped; the
    /// mounts they leave behind are returned for the daemon to take down.
    /// The job of a set that `config` still names gets the set's new
    /// configuration, and forgets its last backup, snapshot count and size
    /// where the target changed. A set that is new gets a fresh, idle job.
    /// The global retention and debounce are replaced. Every set of
    /// `config` is returned to have its metrics refreshed.
    pub fn sync_config(&mut self, config: &Config) -> (plan: SyncPlan)
        ensures
            final(self)@.jobs == synced(old(self)@.jobs, config@.backup_sets),
            final(self)@.global_retention == config@.global.retention,
            final(self)@.global_debounce == config@.global.debounce_seconds,
            teardown_views(plan.unmount@) == stale_mounts(old(self)@.jobs, config@.backup_sets),
            texts(plan.refresh@) == names_of(config@.backup_sets),
            job_names(final(self)@.jobs) == set_names(config@.backup_sets),
            final(self)@.valid(),
    {
        proof {
            use_type_invariant(&*self);
        }
        let ghost before = job_views(self.jobs@);
        let ghost wanted = config@.backup_sets;
        let mut jobs: Vec<Job> = Vec::new();
        core::mem::swap(&mut self.jobs, &mut jobs);
        let mut kept: Vec<Job> = Vec::new();
        let mut unmount: Vec<Teardown> = Vec::new();
        let mut i: usize = 0;
        while i < jobs.len()
            invariant
                i <= jobs.len(),
                before == job_views(jobs@),
                wanted == set_views(config.backup_sets@),
                job_views(kept@) =~= kept_jobs(before.take(i as int), wanted),
                teardown_views(unmount@) =~= stale_mounts(before.take(i as int), wanted),
            decreases jobs.len() - i,
        {
            proof {
                assert(before.take(i + 1).drop_last() =~= before.take(i as int));
                assert(before.take(i + 1).last() == jobs@[i as int]@);
            }
            let wanted_still = has_set(&config.backup_sets, jobs[i].set.name.as_str());
            if wanted_still {
                let ghost so_far = job_views(kept@);
                kept.push(jobs[i].clone());
                assert(job_views(kept@) =~= so_far.push(jobs@[i as int]@));
            } else if jobs[i].is_mounted {
                let ghost so_far = teardown_views(unmount@);
                let stale = Teardown {
                    name: jobs[i].set.name.clone(),
                    mount_child: jobs[i].mount_child,
                    backup_running: match jobs[i].state {
                        JobState::Running => true,
                        _ => false,
                    },
                };
                unmount.push(stale);
                assert(teardown_views(unmount@) =~= so_far.push(stale@));
            }
            i += 1;
        }
        proof {
            assert(before.take(jobs.len() as int) =~= before);
            lemma_kept_valid(before, wanted);
        }
        let mut refresh: Vec<String> = Vec::new();
        let mut k: usize = 0;
        while k < config.backup_sets.len()
            invariant
                k <= config.backup_sets.len(),
                wanted == set_views(config.backup_sets@),
                job_views(kept@) =~= upsert_all(kept_jobs(before, wanted), wanted.take(k as int)),
                unique_names(job_views(kept@)),
                all_well_formed(job_views(kept@)),
                unique_names(kept_jobs(before, wanted)),
                all_well_formed(kept_jobs(before, wanted)),
                texts(refresh@) =~= names_of(wanted).take(k as int),
            decreases config.backup_sets.len() - k,
        {
            let set = &config.backup_sets[k];
            proof {
                assert(wanted.take(k + 1).drop_last() =~= wanted.take(k as int));
                assert(wanted.take(k + 1).last() == set@);
                lemma_upsert(job_views(kept@), set@);
            }
            let ghost so_far = job_views(kept@);
            match position(&kept, set.name.as_str()) {
                Some(at) => {
                    let target_changed = kept[at].set.target != set.target;
                    let mut job = kept[at].clone();
                    if target_changed {
                        job.last_backup = None;
                        job.snapshot_count = None;
                        job.total_bytes = None;
                    }
                    job.set = set.clone();
                    assert(so_far[at as int] == kept@[at as int]@);
                    assert(job@ == so_far[at as int].reconfigured(set@));
                    kept.set(at, job);
                    assert(job_views(kept@) =~= so_far.update(at as int, job@));
                },
                None => {
                    let job = Job::new(set.clone());
                    kept.push(job);
                    assert(job_views(kept@) =~= so_far.push(JobView::fresh(set@)));
                },
            }
            let ghost names = texts(refresh@);
            refresh.push(set.name.clone());
            assert(texts(refresh@) =~= names.push(set@.name));
            k += 1;
        }
        proof {
            assert(wanted.take(config.backup_sets.len() as int) =~= wanted);
            assert(names_of(wanted).take(config.backup_sets.len() as int) =~= names_of(wanted));
            lemma_synced_names(before, wanted);
        }
        self.jobs = kept;
        self.global_retention = config.global.retention;
        self.global_debounce = config.global.debounce_seconds;
        SyncPlan { unmount, refresh }
    }

    /// The global debounce delay in seconds.
    pub fn global_debounce(&self) -> (d: u64)
        ensures
            d == self@.global_debounce,
    {
        self.global_debounce
    }

    /// The global retention policy.
    pub fn global_retention(&self) -> (policy: Option<RetentionPolicy>)
        ensures
            policy == self@.global_retention,
    {
        self.global_retention
    }
}

/// Whether a set of `sets` is named `name`.
fn has_set(sets: &Vec<BackupSet>, name: &str) -> (found: bool)
    ensures
        found == names_set(set_views(sets@), name@),
{
    let key = String::from_str(name);
    let ghost views = set_views(sets@);
    let mut k: usize = 0;
    while k < sets.len()
        invariant
            k <= sets.len(),
            key@ == name@,
            views == set_views(sets@),
            forall|j: int| 0 <= j < k ==> (#[trigger] views[j]).name != name@,
        decreases sets.len() - k,
    {
        assert(views[k as int] == sets@[k as int]@);
        if sets[k].name == key {
            return true;
        }
        k += 1;
    }
    false
}


/// The view of an optional worker step.
pub open spec fn opt_step(o: Option<WorkerStep>) -> Option<WorkerStepView> {
    match o {
        Some(s) => Some(s@),
        None => None,
    }
}

impl JobManagerView {
    /// What a worker step does to the manager: the job named `name` takes
    /// the step; where no such job is left nothing changes and there is no
    /// step.
    pub open spec fn stepped(
        self,
        name: Seq<char>,
        step: spec_fn(JobView) -> crate::job::Step,
    ) -> (JobManagerView, Option<WorkerStepView>) {
        match find_job(self.jobs, name) {
            Some(i) => (self.with_job(i, step(self.jobs[i]).job), Some(step(self.jobs[i]).out)),
            None => (self, None),
        }
    }
}

impl JobManager {
    /// The number of jobs.
    pub fn len(&self) -> (n: usize)
        ensures
            n == self@.jobs.len(),
    {
        self.jobs.len()
    }

    /// The names of the jobs, in order.
    pub fn names(&self) -> (out: Vec<String>)
        ensures
            out@.len() == self@.jobs.len(),
            forall|i: int| 0 <= i < out@.len() ==> (#[trigger] out@[i])@ == self@.jobs[i].set.name,
    {
        let mut out: Vec<String> = Vec::new();
        let mut i: usize = 0;
        while i < self.jobs.len()
            invariant
                i <= self.jobs.len(),
                out@.len() == i,
                forall|k: int|
                    0 <= k < i ==> (#[trigger] out@[k])@ == job_views(self.jobs@)[k].set.name,
            decreases self.jobs.len() - i,
        {
            out.push(self.jobs[i].set.name.clone());
            i += 1;
        }
        out
    }

    /// A copy of the job named `name`, if there is one.
    pub fn job(&self, name: &str) -> (found: Option<Job>)
        ensures
            match find_job(self@.jobs, name@) {
                Some(i) => found is Some && found->0@ == self@.jobs[i],
                None => found is None,
            },
    {
        match position(&self.jobs, name) {
            Some(i) => Some(self.jobs[i].clone()),
            None => None,
        }
    }

    /// Takes note of a change to a file of the set named `name`. The result
    /// says whether a worker has to be spawned for the set.
    pub fn handle_file_change(&mut self, name: &str, now_ms: u64) -> (result: Result<
        bool,
        ManagerError,
    >)
        ensures
            match find_job(old(self)@.jobs, name@) {
                Some(i) => {
                    &&& result matches Ok(spawn)
                    &&& spawn == old(self)@.jobs[i].spawns_worker()
                    &&& final(self)@ == old(self)@.with_job(
                        i,
                        old(self)@.jobs[i].after_file_change(now_ms, old(self)@.global_debounce),
                    )
                },
                None => {
                    &&& result matches Err(e)
                    &&& e@ == ManagerErrorView::UnknownSet(name@)
                    &&& final(self)@ == old(self)@
                },
            },
    {
        proof {
            use_type_invariant(&*self);
        }
        let ghost before = job_views(self.jobs@);
        let mut jobs: Vec<Job> = Vec::new();
        core::mem::swap(&mut self.jobs, &mut jobs);
        let result = match position(&jobs, name) {
            Some(i) => {
                let spawn = jobs[i].file_change(now_ms, self.global_debounce);
                proof {
                    let after = before[i as int].after_file_change(now_ms, self.global_debounce);
                    assert(job_views(jobs@) =~= before.update(i as int, after));
                    lemma_same_name_update(before, i as int, after);
                }
                Ok(spawn)
            },
            None => Err(ManagerError::UnknownSet(String::from_str(name))),
        };
        self.jobs = jobs;
        result
    }

    /// Starts a backup of the set named `name` by hand. The result says
    /// whether a worker has to be spawned for the set. A set whose backup
    /// is running refuses.
    pub fn trigger_backup(&mut self, name: &str) -> (result: Result<bool, ManagerError>)
        ensures
            match find_job(old(self)@.jobs, name@) {
                Some(i) => if old(self)@.jobs[i].state is Running {
                    &&& result matches Err(e)
                    &&& e@ == ManagerErrorView::AlreadyRunning(name@)
                    &&& final(self)@ == old(self)@
                } else {
                    &&& result matches Ok(spawn)
                    &&& spawn == old(self)@.jobs[i].spawns_worker()
                    &&& final(self)@ == old(self)@.with_job(
                        i,
                        old(self)@.jobs[i].after_manual_trigger(),
                    )
                },
                None => {
                    &&& result matches Err(e)
                    &&& e@ == ManagerErrorView::UnknownSet(name@)
                    &&& final(self)@ == old(self)@
                },
            },
    {
        proof {
            use_type_invariant(&*self);
        }
        let ghost before = job_views(self.jobs@);
        let mut jobs: Vec<Job> = Vec::new();
        core::mem::swap(&mut self.jobs, &mut jobs);
        let result = match position(&jobs, name) {
            Some(i) => {
                match jobs[i].manual_trigger() {
                    Trigger::Refused => {
                        assert(job_views(jobs@) =~= before);
                        Err(ManagerError::AlreadyRunning(String::from_str(name)))
                    },
                    Trigger::Accepted { spawn } => {
                        proof {
                            let after = before[i as int].after_manual_trigger();
                            assert(job_views(jobs@) =~= before.update(i as int, after));
                            lemma_same_name_update(before, i as int, after);
                        }
                        Ok(spawn)
                    },
                }
            },
            None => Err(ManagerError::UnknownSet(String::from_str(name))),
        };
        self.jobs = jobs;
        result
    }

    /// The first step of the worker of the set named `name`; `None` where
    /// the set is gone, and the worker then returns. See `JobView::begin`.
    pub fn worker_begin(&mut self, name: &str, now_ms: u64, cancelled: bool) -> (step: Option<
        WorkerStep,
    >)
        ensures
            (final(self)@, opt_step(step)) == old(self)@.stepped(
                name@,
                |job: JobView| job.begin(now_ms, old(self)@.global_debounce, cancelled),
            ),
    {
        proof {
            use_type_invariant(&*self);
        }
        let ghost before = job_views(self.jobs@);
        let mut jobs: Vec<Job> = Vec::new();
        core::mem::swap(&mut self.jobs, &mut jobs);
        let step = match position(&jobs, name) {
            Some(i) => {
                let step = jobs[i].worker_begin(now_ms, self.global_debounce, cancelled);
                proof {
                    let after = before[i as int].begin(now_ms, self.global_debounce, cancelled).job;
                    assert(job_views(jobs@) =~= before.update(i as int, after));
                    lemma_same_name_update(before, i as int, after);
                }
                Some(step)
            },
            None => None,
        };
        self.jobs = jobs;
        step
    }

    /// A tick of the debouncing worker of the set named `name`, which
    /// waits since `start_ms` for `window_secs` seconds; `None` where the
    /// set is gone, and the worker then returns. See `JobView::tick`.
    pub fn worker_tick(
        &mut self,
        name: &str,
        start_ms: u64,
        window_secs: u64,
        now_ms: u64,
        cancelled: bool,
    ) -> (step: Option<WorkerStep>)
        ensures
            (final(self)@, opt_step(step)) == old(self)@.stepped(
                name@,
                |job: JobView| job.tick(start_ms, window_secs, now_ms, cancelled),
            ),
    {
        proof {
            use_type_invariant(&*self);
        }
        let ghost before = job_views(self.jobs@);
        let mut jobs: Vec<Job> = Vec::new();
        core::mem::swap(&mut self.jobs, &mut jobs);
        let step = match position(&jobs, name) {
            Some(i) => {
                let step = jobs[i].worker_tick(start_ms, window_secs, now_ms, cancelled);
                proof {
                    let after = before[i as int].tick(start_ms, window_secs, now_ms, cancelled).job;
                    assert(job_views(jobs@) =~= before.update(i as int, after));
                    lemma_same_name_update(before, i as int, after);
                }
                Some(step)
            },
            None => None,
        };
        self.jobs = jobs;
        step
    }

    /// The step of the worker of the set named `name` whose backup,
    /// started at `started_ms`, has returned; `None` where the set is gone,
    /// and the worker then returns. See `JobView::run_finished`.
    pub fn run_finished(
        &mut self,
        name: &str,
        started_ms: u64,
        outcome: RunOutcome,
        now_ms: u64,
        cancelled: bool,
    ) -> (step: Option<WorkerStep>)
        ensures
            (final(self)@, opt_step(step)) == old(self)@.stepped(
                name@,
                |job: JobView|
                    job.run_finished(
                        started_ms,
                        outcome@,
                        now_ms,
                        old(self)@.global_debounce,
                        old(self)@.global_retention,
                        cancelled,
                    ),
            ),
    {
        proof {
            use_type_invariant(&*self);
        }
        let ghost before = job_views(self.jobs@);
        let mut jobs: Vec<Job> = Vec::new();
        core::mem::swap(&mut self.jobs, &mut jobs);
        let step = match position(&jobs, name) {
            Some(i) => {
                let step = jobs[i].run_finished(
                    started_ms,
                    outcome,
                    now_ms,
                    self.global_debounce,
                    self.global_retention,
                    cancelled,
                );
                proof {
                    let after = before[i as int].run_finished(
                        started_ms,
                        outcome@,
                        now_ms,
                        self.global_debounce,
                        self.global_retention,
                        cancelled,
                    ).job;
                    assert(job_views(jobs@) =~= before.update(i as int, after));
                    lemma_same_name_update(before, i as int, after);
                }
                Some(step)
            },
            None => None,
        };
        self.jobs = jobs;
        step
    }

    /// The step of the worker of the set named `name` whose pruning after
    /// the backup started at `started_ms` has returned; `None` where the
    /// set is gone, and the worker then returns. See
    /// `JobView::prune_finished`.
    pub fn prune_finished(
        &mut self,
        name: &str,
        started_ms: u64,
        outcome: PruneOutcome,
        now_ms: u64,
        cancelled: bool,
    ) -> (step: Option<WorkerStep>)
        ensures
            (final(self)@, opt_step(step)) == old(self)@.stepped(
                name@,
                |job: JobView|
                    job.prune_finished(
                        started_ms,
                        outcome@,
                        now_ms,
                        old(self)@.global_debounce,
                        cancelled,
                    ),
            ),
    {
        proof {
            use_type_invariant(&*self);
        }
        let ghost before = job_views(self.jobs@);
        let mut jobs: Vec<Job> = Vec::new();
        core::mem::swap(&mut self.jobs, &mut jobs);
        let step = match position(&jobs, name) {
            Some(i) => {
                let step = jobs[i].prune_finished(
                    started_ms,
                    outcome,
                    now_ms,
                    self.global_debounce,
                    cancelled,
                );
                proof {
                    let after = before[i as int].prune_finished(
                        started_ms,
                        outcome@,
                        now_ms,
                        self.global_debounce,
                        cancelled,
                    ).job;
                    assert(job_views(jobs@) =~= before.update(i as int, after));
                    lemma_same_name_update(before, i as int, after);
                }
                Some(step)
            },
            None => None,
        };
        self.jobs = jobs;
        step
    }
}

/// Replacing a job by one of the same name and the same mount keeps the
/// names unique and the jobs well formed.
proof fn lemma_same_name_update(jobs: Seq<JobView>, i: int, job: JobView)
    requires
        unique_names(jobs),
        all_well_formed(jobs),
        0 <= i < jobs.len(),
        job.set.name == jobs[i].set.name,
        job.well_formed(),
    ensures
        unique_names(jobs.update(i, job)),
        all_well_formed(jobs.update(i, job)),
{
    let after = jobs.update(i, job);
    assert forall|a: int, b: int| 0 <= a < b < after.len() implies (#[trigger] after[a]).set.name != (
    #[trigger] after[b]).set.name by {
        assert(jobs[a].set.name != jobs[b].set.name);
    }
    assert forall|a: int| 0 <= a < after.len() implies (#[trigger] after[a]).well_formed() by {
        assert(jobs[a].well_formed());
    }
}


/// What a look at the mount of one set showed.
#[derive(Debug)]
pub struct MountObservation {
    /// Name of the set.
    pub name: String,
    /// What the tracked mount process showed.
    pub child: ChildProbe,
    /// Whether the kernel's mount table lists the mount path of the set.
    pub listed: bool,
}

/// What a `MountObservation` holds, as mathematical values.
pub struct MountObservationView {
    pub name: Seq<char>,
    pub child: ChildProbe,
    pub listed: bool,
}

impl View for MountObservation {
    type V = MountObservationView;

    open spec fn view(&self) -> MountObservationView {
        MountObservationView { name: self.name@, child: self.child, listed: self.listed }
    }
}

/// The views of the observations of `v`, in order.
pub open spec fn observation_views(v: Seq<MountObservation>) -> Seq<MountObservationView> {
    Seq::new(v.len(), |i: int| v[i]@)
}

/// The first observation of the set named `name`, if there is one.
pub open spec fn find_observation(
    observations: Seq<MountObservationView>,
    name: Seq<char>,
) -> Option<MountObservationView>
    decreases observations.len(),
{
    if observations.len() == 0 {
        None
    } else {
        match find_observation(observations.drop_last(), name) {
            Some(o) => Some(o),
            None => if observations.last().name == name {
                Some(observations.last())
            } else {
                None
            },
        }
    }
}

/// What the engine answered when asked for the snapshots of a repository.
#[derive(Debug)]
pub enum SnapshotQuery {
    /// The snapshots, oldest first.
    Listed(Vec<SnapshotInfo>),
    /// The query failed; holds the reason.
    Failed(String),
}

/// What a `SnapshotQuery` holds, as mathematical values.
pub enum SnapshotQueryView {
    Listed(Seq<SnapshotInfoView>),
    Failed(Seq<char>),
}

impl View for SnapshotQuery {
    type V = SnapshotQueryView;

    open spec fn view(&self) -> SnapshotQueryView {
        match *self {
            SnapshotQuery::Listed(list) => SnapshotQueryView::Listed(snapshot_views(list@)),
            SnapshotQuery::Failed(reason) => SnapshotQueryView::Failed(reason@),
        }
    }
}

/// What measuring the size of a repository's directory gave.
#[derive(Clone, Copy, Debug, PartialEq, Eq, Structural)]
pub enum SizeQuery {
    /// The size in bytes; `None` where the directory is missing or cannot
    /// be read.
    Measured(Option<u64>),
    /// The walk through the directory failed part-way.
    Failed,
}

/// Whether the reason of a failed snapshot query says that there is no
/// repository to query.
pub open spec fn repository_missing(reason: Seq<char>) -> bool {
    ||| contains_text(reason, "repository does not exist"@)
    ||| contains_text(reason, "no such file or directory"@)
    ||| contains_text(reason, "failed to execute restic"@)
}

impl JobView {
    /// What the daemon reports of the job.
    pub open spec fn status(self) -> SetStatusView {
        SetStatusView {
            name: self.set.name,
            state: self.state,
            last_backup: self.last_backup,
            source_paths: self.set.source_paths(),
            target: self.set.target,
            is_mounted: self.is_mounted,
            snapshot_count: self.snapshot_count,
            total_bytes: self.total_bytes,
        }
    }

    /// The last backup as the newest snapshot `latest` shows it. The bytes
    /// added and the duration are those of the last backup known so far
    /// where that wrote the same snapshot, and zero else.
    pub open spec fn backup_of(self, latest: SnapshotInfoView) -> BackupResultView {
        let known = self.last_backup is Some && self.last_backup->0.snapshot_id == latest.short_id;
        BackupResultView {
            snapshot_id: latest.short_id,
            timestamp: latest.timestamp,
            added_bytes: if known {
                self.last_backup->0.added_bytes
            } else {
                0
            },
            duration_secs: if known {
                self.last_backup->0.duration_secs
            } else {
                Seconds { bits: 0 }
            },
            success: true,
            error_message: None,
        }
    }

    /// The job after its metrics were refreshed.
    ///
    /// A list of snapshots gives the snapshot count and the last backup,
    /// which is that of the newest snapshot, or none where the list is
    /// empty. A failed query that says there is no repository gives a count
    /// of zero and no last backup; any other failed query changes neither.
    /// A measured size replaces the size; a failed walk leaves it. The
    /// mount is squared with the mount table, the tracked process not
    /// having been looked at.
    pub open spec fn refreshed(self, snapshots: SnapshotQueryView, size: SizeQuery, listed: bool) -> JobView {
        let counted = match snapshots {
            SnapshotQueryView::Listed(list) => JobView {
                snapshot_count: Some(list.len() as u64),
                last_backup: if list.len() == 0 {
                    None
                } else {
                    Some(self.backup_of(list.last()))
                },
                ..self
            },
            SnapshotQueryView::Failed(reason) => if repository_missing(reason) {
                JobView { snapshot_count: Some(0), last_backup: None, ..self }
            } else {
                self
            },
        };
        let sized = match size {
            SizeQuery::Measured(bytes) => JobView { total_bytes: bytes, ..counted },
            SizeQuery::Failed => counted,
        };
        sized.reconciled(ChildProbe::Unknown, listed)
    }
}

/// The jobs after a look at their mounts: each job is squared with the
/// first observation of its name, and stays as it is where there is none.
pub open spec fn observed_jobs(
    jobs: Seq<JobView>,
    observations: Seq<MountObservationView>,
) -> Seq<JobView> {
    Seq::new(
        jobs.len(),
        |i: int|
            match find_observation(observations, jobs[i].set.name) {
                Some(o) => jobs[i].reconciled(o.child, o.listed),
                None => jobs[i],
            },
    )
}

/// What the daemon reports of each of the jobs, in order.
pub open spec fn statuses(jobs: Seq<JobView>) -> Seq<SetStatusView> {
    Seq::new(jobs.len(), |i: int| jobs[i].status())
}

fn observation_of<'a>(observations: &'a Vec<MountObservation>, name: &String) -> (found: Option<
    &'a MountObservation,
>)
    ensures
        match found {
            Some(o) => find_observation(observation_views(observations@), name@) == Some(o@),
            None => find_observation(observation_views(observations@), name@) is None,
        },
{
    let ghost views = observation_views(observations@);
    let mut k: usize = 0;
    while k < observations.len()
        invariant
            k <= observations.len(),
            views == observation_views(observations@),
            find_observation(views.take(k as int), name@) is None,
        decreases observations.len() - k,
    {
        proof {
            assert(views.take(k + 1).drop_last() =~= views.take(k as int));
            assert(views.take(k + 1).last() == observations@[k as int]@);
        }
        if observations[k].name == *name {
            proof {
                lemma_observation_found(views, name@, k + 1);
            }
            return Some(&observations[k]);
        }
        k += 1;
    }
    assert(views.take(observations.len() as int) =~= views);
    None
}

/// What is found among the first `k` observations is found among all.
proof fn lemma_observation_found(observations: Seq<MountObservationView>, name: Seq<char>, k: int)
    requires
        0 <= k <= observations.len(),
        find_observation(observations.take(k), name) is Some,
    ensures
        find_observation(observations, name) == find_observation(observations.take(k), name),
    decreases observations.len(),
{
    if k < observations.len() {
        assert(observations.drop_last().take(k) =~= observations.take(k));
        lemma_observation_found(observations.drop_last(), name, k);
    } else {
        assert(observations.take(k) =~= observations);
    }
}

impl Job {
    /// What the daemon reports of the job.
    pub fn status(&self) -> (out: SetStatus)
        ensures
            out@ == self@.status(),
    {
        SetStatus {
            name: self.set.name.clone(),
            state: self.state,
            last_backup: clone_opt_result(&self.last_backup),
            source_paths: self.set.source_paths(),
            target: self.set.target.clone(),
            is_mounted: self.is_mounted,
            snapshot_count: self.snapshot_count,
            total_bytes: self.total_bytes,
        }
    }

    /// Takes in refreshed metrics. See `JobView::refreshed`.
    pub fn refresh(&mut self, snapshots: &SnapshotQuery, size: SizeQuery, listed: bool)
        ensures
            final(self)@ == old(self)@.refreshed(snapshots@, size, listed),
    {
        match snapshots {
            SnapshotQuery::Listed(list) => {
                self.snapshot_count = Some(list.len() as u64);
                if list.len() == 0 {
                    self.last_backup = None;
                } else {
                    let latest = &list[list.len() - 1];
                    assert(snapshot_views(list@).last() == latest@);
                    let mut result = BackupResult {
                        snapshot_id: latest.short_id.clone(),
                        timestamp: latest.timestamp,
                        added_bytes: 0,
                        duration_secs: Seconds::zero(),
                        success: true,
                        error_message: None,
                    };
                    if let Some(current) = &self.last_backup {
                        if current.snapshot_id == latest.short_id {
                            result.added_bytes = current.added_bytes;
                            result.duration_secs = current.duration_secs;
                        }
                    }
                    self.last_backup = Some(result);
                }
            },
            SnapshotQuery::Failed(reason) => {
                let text = chars_of(reason.as_str());
                let missing = contains(&text, &chars_of("repository does not exist")) || contains(
                    &text,
                    &chars_of("no such file or directory"),
                ) || contains(&text, &chars_of("failed to execute restic"));
                if missing {
                    self.last_backup = None;
                    self.snapshot_count = Some(0);
                }
            },
        }
        match size {
            SizeQuery::Measured(bytes) => {
                self.total_bytes = bytes;
            },
            SizeQuery::Failed => {},
        }
        self.reconcile(ChildProbe::Unknown, listed);
    }
}

impl JobManager {
    /// The sets whose status is to be fetched when the daemon starts: all
    /// of them, in order. For each the daemon queries the engine for the
    /// snapshots, measures the repository and looks at the mount table,
    /// and hands what it found to `apply_refresh`.
    pub fn initialize_status(&self) -> (out: Vec<String>)
        ensures
            out@.len() == self@.jobs.len(),
            forall|i: int| 0 <= i < out@.len() ==> (#[trigger] out@[i])@ == self@.jobs[i].set.name,
    {
        self.names()
    }

    /// The repository whose snapshots are to be listed for the set named
    /// `name`: the target of that set.
    pub fn get_snapshots(&self, name: &str) -> (result: Result<String, ManagerError>)
        ensures
            match find_job(self@.jobs, name@) {
                Some(i) => result matches Ok(target) && target@ == self@.jobs[i].set.target,
                None => result matches Err(e) && e@ == ManagerErrorView::UnknownSet(name@),
            },
    {
        match self.target_of(name) {
            Some(target) => Ok(target),
            None => Err(ManagerError::UnknownSet(String::from_str(name))),
        }
    }

    /// The target of the set named `name`, if the set is configured.
    pub fn target_of(&self, name: &str) -> (target: Option<String>)
        ensures
            match find_job(self@.jobs, name@) {
                Some(i) => target is Some && target->0@ == self@.jobs[i].set.target,
                None => target is None,
            },
    {
        match position(&self.jobs, name) {
            Some(i) => {
                assert(job_views(self.jobs@)[i as int] == self.jobs@[i as int]@);
                Some(self.jobs[i].set.target.clone())
            },
            None => None,
        }
    }

    /// Takes in the refreshed metrics of the set named `name`; nothing
    /// changes where the set is gone. See `JobView::refreshed`.
    pub fn apply_refresh(
        &mut self,
        name: &str,
        snapshots: &SnapshotQuery,
        size: SizeQuery,
        listed: bool,
    )
        ensures
            final(self)@ == (match find_job(old(self)@.jobs, name@) {
                Some(i) => old(self)@.with_job(
                    i,
                    old(self)@.jobs[i].refreshed(snapshots@, size, listed),
                ),
                None => old(self)@,
            }),
    {
        proof {
            use_type_invariant(&*self);
        }
        let ghost before = job_views(self.jobs@);
        let mut jobs: Vec<Job> = Vec::new();
        core::mem::swap(&mut self.jobs, &mut jobs);
        match position(&jobs, name) {
            Some(i) => {
                jobs[i].refresh(snapshots, size, listed);
                proof {
                    let after = before[i as int].refreshed(snapshots@, size, listed);
                    assert(job_views(jobs@) =~= before.update(i as int, after));
                    lemma_same_name_update(before, i as int, after);
                }
            },
            None => {},
        }
        self.jobs = jobs;
    }

    /// The names of the sets other than `exclude` that share the target
    /// `target`, in order: the sets that see the same repository.
    pub fn related_sets(&self, target: &str, exclude: &str) -> (out: Vec<String>)
        ensures
            texts(out@) == related_names(self@.jobs, target@, exclude@),
    {
        let target_key = String::from_str(target);
        let exclude_key = String::from_str(exclude);
        let ghost views = job_views(self.jobs@);
        let mut out: Vec<String> = Vec::new();
        let mut i: usize = 0;
        while i < self.jobs.len()
            invariant
                i <= self.jobs.len(),
                target_key@ == target@,
                exclude_key@ == exclude@,
                views == job_views(self.jobs@),
                texts(out@) =~= related_names(views.take(i as int), target@, exclude@),
            decreases self.jobs.len() - i,
        {
            proof {
                assert(views.take(i + 1).drop_last() =~= views.take(i as int));
                assert(views.take(i + 1).last() == self.jobs@[i as int]@);
            }
            if self.jobs[i].set.target == target_key && self.jobs[i].set.name != exclude_key {
                let ghost so_far = texts(out@);
                out.push(self.jobs[i].set.name.clone());
                assert(texts(out@) =~= so_far.push(self.jobs@[i as int]@.set.name));
            }
            i += 1;
        }
        assert(views.take(self.jobs.len() as int) =~= views);
        out
    }

    /// Squares every job with the look at its mount in `observations`, and
    /// reports the status of every job after that, in order.
    pub fn get_status(&mut self, observations: &Vec<MountObservation>) -> (out: Vec<SetStatus>)
        ensures
            final(self)@.jobs == observed_jobs(old(self)@.jobs, observation_views(observations@)),
            final(self)@.global_retention == old(self)@.global_retention,
            final(self)@.global_debounce == old(self)@.global_debounce,
            status_views(out@) == statuses(final(self)@.jobs),
    {
        proof {
            use_type_invariant(&*self);
        }
        let ghost before = job_views(self.jobs@);
        let ghost seen = observation_views(observations@);
        let mut jobs: Vec<Job> = Vec::new();
        core::mem::swap(&mut self.jobs, &mut jobs);
        let mut out: Vec<SetStatus> = Vec::new();
        let mut i: usize = 0;
        while i < jobs.len()
            invariant
                i <= jobs.len(),
                jobs.len() == before.len(),
                seen == observation_views(observations@),
                unique_names(before),
                all_well_formed(before),
                forall|k: int|
                    0 <= k < i ==> (#[trigger] job_views(jobs@)[k]) == observed_jobs(before, seen)[k],
                forall|k: int| i <= k < jobs.len() ==> (#[trigger] job_views(jobs@)[k]) == before[k],
                status_views(out@) =~= statuses(observed_jobs(before, seen)).take(i as int),
            decreases jobs.len() - i,
        {
            let ghost views = job_views(jobs@);
            assert(views[i as int] == before[i as int]);
            match observation_of(observations, &jobs[i].set.name) {
                Some(o) => {
                    jobs[i].reconcile(o.child, o.listed);
                },
                None => {},
            }
            assert(job_views(jobs@)[i as int] == observed_jobs(before, seen)[i as int]);
            assert forall|k: int| 0 <= k < i + 1 implies (#[trigger] job_views(jobs@)[k])
                == observed_jobs(before, seen)[k] by {
                if k < i {
                    assert(job_views(jobs@)[k] == views[k]);
                }
            }
            assert forall|k: int| i + 1 <= k < jobs.len() implies (#[trigger] job_views(jobs@)[k])
                == before[k] by {
                assert(job_views(jobs@)[k] == views[k]);
            }
            let ghost so_far = status_views(out@);
            let status = jobs[i].status();
            out.push(status);
            assert(status_views(out@) =~= so_far.push(status@));
            i += 1;
        }
        proof {
            let after = observed_jobs(before, seen);
            assert(job_views(jobs@) =~= after);
            assert(statuses(after).take(jobs.len() as int) =~= statuses(after));
            assert forall|a: int, b: int| 0 <= a < b < after.len() implies (#[trigger] after[a]).set.name
                != (#[trigger] after[b]).set.name by {
                assert(before[a].set.name != before[b].set.name);
            }
            assert forall|a: int| 0 <= a < after.len() implies (#[trigger] after[a]).well_formed() by {
                assert(before[a].well_formed());
            }
        }
        self.jobs = jobs;
        out
    }
}

/// The names of the jobs other than `exclude` whose target is `target`.
pub open spec fn related_names(jobs: Seq<JobView>, target: Seq<char>, exclude: Seq<char>) -> Seq<
    Seq<char>,
>
    decreases jobs.len(),
{
    if jobs.len() == 0 {
        Seq::empty()
    } else if jobs.last().set.target == target && jobs.last().set.name != exclude {
        related_names(jobs.drop_last(), target, exclude).push(jobs.last().set.name)
    } else {
        related_names(jobs.drop_last(), target, exclude)
    }
}


/// What a request to mount a set comes to.
#[derive(Debug)]
pub enum MountPlan {
    /// The set is mounted already: answer with its mount path.
    AlreadyMounted,
    /// Create the mount directory and start the engine's mount of the
    /// repository at `target`.
    Start { target: String },
}

/// What a `MountPlan` holds, as mathematical values.
pub enum MountPlanView {
    AlreadyMounted,
    Start { target: Seq<char> },
}

impl View for MountPlan {
    type V = MountPlanView;

    open spec fn view(&self) -> MountPlanView {
        match *self {
            MountPlan::AlreadyMounted => MountPlanView::AlreadyMounted,
            MountPlan::Start { target } => MountPlanView::Start { target: target@ },
        }
    }
}

impl JobView {
    /// What it takes to unmount the job.
    pub open spec fn teardown(self) -> TeardownView {
        TeardownView {
            name: self.set.name,
            mount_child: self.mount_child,
            backup_running: self.state is Running,
        }
    }
}

/// What it takes to unmount every mounted job of `jobs`, in order.
pub open spec fn teardowns(jobs: Seq<JobView>) -> Seq<TeardownView>
    decreases jobs.len(),
{
    if jobs.len() == 0 {
        Seq::empty()
    } else if jobs.last().is_mounted {
        teardowns(jobs.drop_last()).push(jobs.last().teardown())
    } else {
        teardowns(jobs.drop_last())
    }
}

/// The sets of the jobs, each with the retention policy in force.
pub open spec fn effective_sets(jobs: Seq<JobView>, global: Option<RetentionPolicy>) -> Seq<
    BackupSetView,
> {
    Seq::new(jobs.len(), |i: int| jobs[i].set.with_effective_retention(global))
}

impl Job {
    /// What it takes to unmount the job.
    pub fn teardown(&self) -> (out: Teardown)
        ensures
            out@ == self@.teardown(),
    {
        Teardown {
            name: self.set.name.clone(),
            mount_child: self.mount_child,
            backup_running: match self.state {
                JobState::Running => true,
                _ => false,
            },
        }
    }
}

impl JobManager {
    /// What a request to mount the set named `name` comes to. Mounting is
    /// idempotent: a set that is mounted is not mounted again.
    pub fn mount(&self, name: &str) -> (result: Result<MountPlan, ManagerError>)
        ensures
            match find_job(self@.jobs, name@) {
                Some(i) => result matches Ok(plan) && plan@ == (if self@.jobs[i].is_mounted {
                    MountPlanView::AlreadyMounted
                } else {
                    MountPlanView::Start { target: self@.jobs[i].set.target }
                }),
                None => result matches Err(e) && e@ == ManagerErrorView::UnknownSet(name@),
            },
    {
        match position(&self.jobs, name) {
            Some(i) => {
                assert(job_views(self.jobs@)[i as int] == self.jobs@[i as int]@);
                if self.jobs[i].is_mounted {
                    Ok(MountPlan::AlreadyMounted)
                } else {
                    Ok(MountPlan::Start { target: self.jobs[i].set.target.clone() })
                }
            },
            None => Err(ManagerError::UnknownSet(String::from_str(name))),
        }
    }

    /// Records that the engine's mount of the set named `name` was started
    /// as the process `child`: the set counts as mounted and the process is
    /// tracked.
    pub fn mount_started(&mut self, name: &str, child: u32) -> (result: Result<(), ManagerError>)
        ensures
            match find_job(old(self)@.jobs, name@) {
                Some(i) => result is Ok && final(self)@ == old(self)@.with_job(
                    i,
                    old(self)@.jobs[i].mounted_by(child),
                ),
                None => {
                    &&& result matches Err(e)
                    &&& e@ == ManagerErrorView::UnknownSet(name@)
                    &&& final(self)@ == old(self)@
                },
            },
    {
        proof {
            use_type_invariant(&*self);
        }
        let ghost before = job_views(self.jobs@);
        let mut jobs: Vec<Job> = Vec::new();
        core::mem::swap(&mut self.jobs, &mut jobs);
        let result = match position(&jobs, name) {
            Some(i) => {
                jobs[i].mount_child = Some(child);
                jobs[i].is_mounted = true;
                proof {
                    let after = before[i as int].mounted_by(child);
                    assert(job_views(jobs@) =~= before.update(i as int, after));
                    lemma_same_name_update(before, i as int, after);
                }
                Ok(())
            },
            None => Err(ManagerError::UnknownSet(String::from_str(name))),
        };
        self.jobs = jobs;
        result
    }

    /// The mounts to take down for a request to unmount the set named
    /// `name`, or all sets where no name is given. A set that is not
    /// mounted needs nothing.
    pub fn unmount(&self, name: Option<&str>) -> (result: Result<Vec<Teardown>, ManagerError>)
        ensures
            match name {
                Some(n) => match find_job(self@.jobs, n@) {
                    Some(i) => result matches Ok(plan) && teardown_views(plan@) == (
                    if self@.jobs[i].is_mounted {
                        seq![self@.jobs[i].teardown()]
                    } else {
                        Seq::empty()
                    }),
                    None => result matches Err(e) && e@ == ManagerErrorView::UnknownSet(n@),
                },
                None => result matches Ok(plan) && teardown_views(plan@) == teardowns(self@.jobs),
            },
    {
        let mut plan: Vec<Teardown> = Vec::new();
        match name {
            Some(n) => match position(&self.jobs, n) {
                Some(i) => {
                    assert(job_views(self.jobs@)[i as int] == self.jobs@[i as int]@);
                    if self.jobs[i].is_mounted {
                        let task = self.jobs[i].teardown();
                        plan.push(task);
                        assert(teardown_views(plan@) =~= seq![self@.jobs[i as int].teardown()]);
                    } else {
                        assert(teardown_views(plan@) =~= Seq::<TeardownView>::empty());
                    }
                    Ok(plan)
                },
                None => Err(ManagerError::UnknownSet(String::from_str(n))),
            },
            None => {
                let ghost views = job_views(self.jobs@);
                let mut i: usize = 0;
                while i < self.jobs.len()
                    invariant
                        i <= self.jobs.len(),
                        views == job_views(self.jobs@),
                        teardown_views(plan@) =~= teardowns(views.take(i as int)),
                    decreases self.jobs.len() - i,
                {
                    proof {
                        assert(views.take(i + 1).drop_last() =~= views.take(i as int));
                        assert(views.take(i + 1).last() == self.jobs@[i as int]@);
                    }
                    if self.jobs[i].is_mounted {
                        let ghost so_far = teardown_views(plan@);
                        let task = self.jobs[i].teardown();
                        plan.push(task);
                        assert(teardown_views(plan@) =~= so_far.push(task@));
                    }
                    i += 1;
                }
                assert(views.take(self.jobs.len() as int) =~= views);
                Ok(plan)
            },
        }
    }

    /// Records how the unmount of the set named `name` went. Unless waiting
    /// for the helper failed, the set no longer counts as mounted and no
    /// process is tracked for it, whether or not the helper succeeded.
    /// Nothing changes where the set is gone.
    pub fn unmount_finished(&mut self, name: &str, helper: HelperOutcome)
        ensures
            final(self)@ == (match find_job(old(self)@.jobs, name@) {
                Some(i) if !(helper is Interrupted) => old(self)@.with_job(
                    i,
                    old(self)@.jobs[i].unmounted(),
                ),
                _ => old(self)@,
            }),
    {
        proof {
            use_type_invariant(&*self);
        }
        let ghost before = job_views(self.jobs@);
        let mut jobs: Vec<Job> = Vec::new();
        core::mem::swap(&mut self.jobs, &mut jobs);
        match position(&jobs, name) {
            Some(i) => {
                match helper {
                    HelperOutcome::Interrupted => {
                        assert(job_views(jobs@) =~= before);
                    },
                    _ => {
                        jobs[i].is_mounted = false;
                        jobs[i].mount_child = None;
                        proof {
                            let after = before[i as int].unmounted();
                            assert(job_views(jobs@) =~= before.update(i as int, after));
                            lemma_same_name_update(before, i as int, after);
                        }
                    },
                }
            },
            None => {},
        }
        self.jobs = jobs;
    }

    /// The sets to prune for a request to prune the set named `name`, or
    /// all sets where no name is given, each with the retention policy in
    /// force: its own, else the global one.
    pub fn prune(&self, name: Option<&str>) -> (result: Result<Vec<BackupSet>, ManagerError>)
        ensures
            match name {
                Some(n) => match find_job(self@.jobs, n@) {
                    Some(i) => result matches Ok(plan) && set_views(plan@) == seq![
                        self@.jobs[i].set.with_effective_retention(self@.global_retention),
                    ],
                    None => result matches Err(e) && e@ == ManagerErrorView::UnknownSet(n@),
                },
                None => result matches Ok(plan) && set_views(plan@) == effective_sets(
                    self@.jobs,
                    self@.global_retention,
                ),
            },
    {
        let mut plan: Vec<BackupSet> = Vec::new();
        match name {
            Some(n) => match position(&self.jobs, n) {
                Some(i) => {
                    assert(job_views(self.jobs@)[i as int] == self.jobs@[i as int]@);
                    let set = self.jobs[i].set.with_effective_retention(self.global_retention);
                    plan.push(set);
                    assert(set_views(plan@) =~= seq![
                        self@.jobs[i as int].set.with_effective_retention(self@.global_retention),
                    ]);
                    Ok(plan)
                },
                None => Err(ManagerError::UnknownSet(String::from_str(n))),
            },
            None => {
                let ghost views = job_views(self.jobs@);
                let mut i: usize = 0;
                while i < self.jobs.len()
                    invariant
                        i <= self.jobs.len(),
                        views == job_views(self.jobs@),
                        set_views(plan@) =~= effective_sets(views, self.global_retention).take(
                            i as int,
                        ),
                    decreases self.jobs.len() - i,
                {
                    let ghost so_far = set_views(plan@);
                    let set = self.jobs[i].set.with_effective_retention(self.global_retention);
                    plan.push(set);
                    assert(set_views(plan@) =~= so_far.push(set@));
                    i += 1;
                }
                assert(effective_sets(views, self.global_retention).take(self.jobs.len() as int)
                    =~= effective_sets(views, self.global_retention));
                Ok(plan)
            },
        }
    }
}

/// What triggering the backup of every set came to.
#[derive(Debug)]
pub struct TriggerReport {
    /// The sets whose backup was triggered, in order.
    pub started: Vec<String>,
    /// The sets that refused, each with the reason, in order.
    pub failed: Vec<(String, String)>,
    /// The sets for which a worker has to be spawned, in order.
    pub spawn: Vec<String>,
}

/// The jobs after each was triggered by hand.
pub open spec fn all_triggered(jobs: Seq<JobView>) -> Seq<JobView> {
    Seq::new(jobs.len(), |i: int| jobs[i].after_manual_trigger())
}

/// The names of the jobs that take a manual trigger, in order.
pub open spec fn started_names(jobs: Seq<JobView>) -> Seq<Seq<char>>
    decreases jobs.len(),
{
    if jobs.len() == 0 {
        Seq::empty()
    } else if jobs.last().state is Running {
        started_names(jobs.drop_last())
    } else {
        started_names(jobs.drop_last()).push(jobs.last().set.name)
    }
}

/// The names of the jobs that refuse a manual trigger, each with the
/// reason, in order.
pub open spec fn refusals(jobs: Seq<JobView>) -> Seq<(Seq<char>, Seq<char>)>
    decreases jobs.len(),
{
    if jobs.len() == 0 {
        Seq::empty()
    } else if jobs.last().state is Running {
        refusals(jobs.drop_last()).push(
            (
                jobs.last().set.name,
                ManagerErrorView::AlreadyRunning(jobs.last().set.name).message(),
            ),
        )
    } else {
        refusals(jobs.drop_last())
    }
}

/// The names of the jobs for which a manual trigger has a worker spawned,
/// in order.
pub open spec fn spawned_names(jobs: Seq<JobView>) -> Seq<Seq<char>>
    decreases jobs.len(),
{
    if jobs.len() == 0 {
        Seq::empty()
    } else if jobs.last().spawns_worker() {
        spawned_names(jobs.drop_last()).push(jobs.last().set.name)
    } else {
        spawned_names(jobs.drop_last())
    }
}

impl JobManager {
    /// Starts a backup of every set by hand. A set whose backup is running
    /// refuses and is reported as failed; every other is reported as
    /// started.
    pub fn trigger_all(&mut self) -> (report: TriggerReport)
        ensures
            final(self)@.jobs == all_triggered(old(self)@.jobs),
            final(self)@.global_retention == old(self)@.global_retention,
            final(self)@.global_debounce == old(self)@.global_debounce,
            texts(report.started@) == started_names(old(self)@.jobs),
            text_pairs(report.failed@) == refusals(old(self)@.jobs),
            texts(report.spawn@) == spawned_names(old(self)@.jobs),
    {
        proof {
            use_type_invariant(&*self);
        }
        let ghost before = job_views(self.jobs@);
        let mut jobs: Vec<Job> = Vec::new();
        core::mem::swap(&mut self.jobs, &mut jobs);
        let mut started: Vec<String> = Vec::new();
        let mut failed: Vec<(String, String)> = Vec::new();
        let mut spawn: Vec<String> = Vec::new();
        let mut i: usize = 0;
        while i < jobs.len()
            invariant
                i <= jobs.len(),
                jobs.len() == before.len(),
                forall|k: int|
                    0 <= k < i ==> (#[trigger] job_views(jobs@)[k]) == before[k].after_manual_trigger(),
                forall|k: int| i <= k < jobs.len() ==> (#[trigger] job_views(jobs@)[k]) == before[k],
                texts(started@) =~= started_names(before.take(i as int)),
                text_pairs(failed@) =~= refusals(before.take(i as int)),
                texts(spawn@) =~= spawned_names(before.take(i as int)),
            decreases jobs.len() - i,
        {
            let ghost views = job_views(jobs@);
            proof {
                assert(views[i as int] == before[i as int]);
                assert(before.take(i + 1).drop_last() =~= before.take(i as int));
                assert(before.take(i + 1).last() == before[i as int]);
            }
            let name = jobs[i].set.name.clone();
            match jobs[i].manual_trigger() {
                Trigger::Refused => {
                    let reason = ManagerError::AlreadyRunning(name.clone()).message();
                    let ghost so_far = text_pairs(failed@);
                    failed.push((name, reason));
                    assert(text_pairs(failed@) =~= so_far.push((name@, reason@)));
                },
                Trigger::Accepted { spawn: needs_worker } => {
                    if needs_worker {
                        let ghost so_far = texts(spawn@);
                        spawn.push(name.clone());
                        assert(texts(spawn@) =~= so_far.push(name@));
                    }
                    let ghost so_far = texts(started@);
                    started.push(name);
                    assert(texts(started@) =~= so_far.push(name@));
                },
            }
            assert forall|k: int| 0 <= k < i + 1 implies (#[trigger] job_views(jobs@)[k])
                == before[k].after_manual_trigger() by {
                if k < i {
                    assert(job_views(jobs@)[k] == views[k]);
                }
            }
            assert forall|k: int| i + 1 <= k < jobs.len() implies (#[trigger] job_views(jobs@)[k])
                == before[k] by {
                assert(job_views(jobs@)[k] == views[k]);
            }
            i += 1;
        }
        proof {
            let after = all_triggered(before);
            assert(job_views(jobs@) =~= after);
            assert(before.take(jobs.len() as int) =~= before);
            assert forall|a: int, b: int| 0 <= a < b < after.len() implies (#[trigger] after[a]).set.name
                != (#[trigger] after[b]).set.name by {
                assert(before[a].set.name != before[b].set.name);
            }
            assert forall|a: int| 0 <= a < after.len() implies (#[trigger] after[a]).well_formed() by {
                assert(before[a].well_formed());
            }
        }
        self.jobs = jobs;
        TriggerReport { started, failed, spawn }
    }
}

} // verus!
