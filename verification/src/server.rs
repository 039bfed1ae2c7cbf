//! The IPC server's part in a request: what each request asks of the job
//! manager, and what is answered.
//!
//! The daemon reads a request from a connection, hands it to
//! `handle_request` with the manager's mutex held, and gets an `Action`.
//! Most actions are a reply. The others name work that the daemon does
//! itself, outside this library — probing mounts, running the engine or
//! the unmount helper — after which one of the `*_reply` functions turns
//! what the work gave into the reply.

use crate::config::{set_views, BackupSet, BackupSetView};
use crate::executor::{EngineError, EngineErrorView};
use crate::ipc::{
    sized_names, text_pairs, Request, RequestView, Response, ResponseData, ResponseDataView,
    ResponseView,
};
use crate::ipc::error_codes::{
    BACKUP_FAILED, INVALID_REQUEST, MOUNT_FAILED, RESTIC_ERROR, UNKNOWN_SET,
};
use crate::manager::{
    all_triggered, effective_sets, find_job, observation_views, observed_jobs, refusals,
    spawned_names, started_names, statuses, teardown_views, teardowns, JobManager, JobManagerView,
    ManagerError, ManagerErrorView, MountObservation, MountPlan, Teardown, TeardownView,
};
use crate::manager::lemma_find_job;
use crate::mount::{child_action_for, ChildAction, HelperOutcome, MOUNT_DIRECTORY_MODE};
use crate::paths::{mount_path, path_join, Dirs};
use crate::text::{opt_text, texts};
use crate::types::{snapshot_views, SnapshotInfo};
use vstd::prelude::*;
use vstd::string::StringExecFns;

verus! {

/// What the daemon probes the mounts for.
#[derive(Clone, Copy, Debug, PartialEq, Eq, Structural)]
pub enum Purpose {
    /// To report the status of all sets: go on with `status_reply`.
    Status,
    /// To start a backup of all sets: go on with `backup_all_reply`.
    BackupAll,
}

/// What is sent back, and what the daemon does besides.
#[derive(Debug)]
pub struct Reply {
    /// The response to write to the connection.
    pub response: Response,
    /// The sets for each of which a worker is to be spawned.
    pub spawn: Vec<String>,
    /// Whether to signal shutdown to the whole process and, once the
    /// response is written, close the connection.
    pub shutdown: bool,
    /// Whether to have the configuration read again.
    pub reload: bool,
}

/// What a `Reply` holds, as mathematical values.
pub struct ReplyView {
    pub response: ResponseView,
    pub spawn: Seq<Seq<char>>,
    pub shutdown: bool,
    pub reload: bool,
}

impl View for Reply {
    type V = ReplyView;

    open spec fn view(&self) -> ReplyView {
        ReplyView {
            response: self.response@,
            spawn: texts(self.spawn@),
            shutdown: self.shutdown,
            reload: self.reload,
        }
    }
}

/// What the daemon does about a request.
#[derive(Debug)]
pub enum Action {
    /// Send the reply.
    Reply(Reply),
    /// Look at the mount of every set, then go on as the purpose says.
    Probe(Purpose),
    /// Have the engine list the snapshots of the repository at `target`,
    /// then go on with `snapshots_reply`.
    Snapshots { target: String, limit: Option<usize> },
    /// Create the directory `mount_path` with the permission bits
    /// `directory_mode` unless it exists, and have the engine mount the
    /// repository at `target` on it, then go on with `mount_reply`.
    Mount {
        set_name: String,
        target: String,
        snapshot_id: Option<String>,
        mount_path: String,
        directory_mode: u32,
    },
    /// Take these mounts down, then go on with `unmount_reply`. `single`
    /// says whether the request named a set.
    Unmount { single: bool, tasks: Vec<Teardown> },
    /// Have the engine prune each of these sets, then go on with
    /// `prune_reply`. `single` says whether the request named a set.
    Prune { single: bool, sets: Vec<BackupSet> },
}

/// What an `Action` holds, as mathematical values.
pub enum ActionView {
    Reply(ReplyView),
    Probe(Purpose),
    Snapshots { target: Seq<char>, limit: Option<usize> },
    Mount {
        set_name: Seq<char>,
        target: Seq<char>,
        snapshot_id: Option<Seq<char>>,
        mount_path: Seq<char>,
        directory_mode: u32,
    },
    Unmount { single: bool, tasks: Seq<TeardownView> },
    Prune { single: bool, sets: Seq<BackupSetView> },
}

impl View for Action {
    type V = ActionView;

    open spec fn view(&self) -> ActionView {
        match *self {
            Action::Reply(reply) => ActionView::Reply(reply@),
            Action::Probe(purpose) => ActionView::Probe(purpose),
            Action::Snapshots { target, limit } => ActionView::Snapshots { target: target@, limit },
            Action::Mount {
                set_name,
                target,
                snapshot_id,
                mount_path,
                directory_mode,
            } => ActionView::Mount {
                set_name: set_name@,
                target: target@,
                snapshot_id: opt_text(snapshot_id),
                mount_path: mount_path@,
                directory_mode,
            },
            Action::Unmount { single, tasks } => ActionView::Unmount {
                single,
                tasks: teardown_views(tasks@),
            },
            Action::Prune { single, sets } => ActionView::Prune { single, sets: set_views(sets@) },
        }
    }
}

/// The reply that only sends `response`.
pub open spec fn plain(response: ResponseView) -> ReplyView {
    ReplyView { response, spawn: Seq::empty(), shutdown: false, reload: false }
}

/// The error response with the code `code` and the message `message`.
pub open spec fn failure(code: Seq<char>, message: Seq<char>) -> ResponseView {
    ResponseView::Error { code, message }
}

/// The response to a request for a set that is not configured.
pub open spec fn unknown_set(name: Seq<char>) -> ResponseView {
    failure(UNKNOWN_SET@, ManagerErrorView::UnknownSet(name).message())
}

/// The response to a line that is no request; `reason` is what the parser
/// said of it.
pub open spec fn not_a_request(reason: Seq<char>) -> ResponseView {
    failure(INVALID_REQUEST@, "Failed to parse JSON: "@ + reason)
}

/// The path on which the repository of the set named `name` is mounted.
pub open spec fn mount_path_of(data_dir: Seq<char>, name: Seq<char>) -> Seq<char> {
    path_join(path_join(data_dir, "mnt"@), name)
}

/// What a request comes to: the manager after it, and the action.
///
/// `Ping` is answered `Pong`. `Shutdown` and `ReloadConfig` are answered
/// with success and have the daemon shut down or read its configuration.
/// `Status`, and `Backup` of all sets, first have the mounts probed. A
/// request that names a set that is not configured is answered
/// `UnknownSet`. `Backup` of a set triggers it: a set that is running
/// answers `BackupFailed`, any other `BackupStarted`. `Mount` of a set
/// that is mounted is answered with its mount path; else the mount
/// directory is to be created for its owner alone. `Unmount` where
/// nothing is mounted is answered with success. Everything else is work
/// for the daemon.
pub open spec fn handled(
    manager: JobManagerView,
    request: RequestView,
    data_dir: Seq<char>,
) -> (JobManagerView, ActionView) {
    match request {
        RequestView::Ping => (manager, ActionView::Reply(plain(ResponseView::Pong))),
        RequestView::Status => (manager, ActionView::Probe(Purpose::Status)),
        RequestView::Shutdown => (
            manager,
            ActionView::Reply(ReplyView { shutdown: true, ..plain(ResponseView::Okay(None)) }),
        ),
        RequestView::ReloadConfig => (
            manager,
            ActionView::Reply(ReplyView { reload: true, ..plain(ResponseView::Okay(None)) }),
        ),
        RequestView::Backup { set_name: None } => (manager, ActionView::Probe(Purpose::BackupAll)),
        RequestView::Backup { set_name: Some(name) } => match find_job(manager.jobs, name) {
            None => (manager, ActionView::Reply(plain(unknown_set(name)))),
            Some(i) => if manager.jobs[i].state is Running {
                (
                    manager,
                    ActionView::Reply(
                        plain(
                            failure(
                                BACKUP_FAILED@,
                                ManagerErrorView::AlreadyRunning(name).message(),
                            ),
                        ),
                    ),
                )
            } else {
                (
                    manager.with_job(i, manager.jobs[i].after_manual_trigger()),
                    ActionView::Reply(
                        ReplyView {
                            spawn: if manager.jobs[i].spawns_worker() {
                                seq![name]
                            } else {
                                Seq::empty()
                            },
                            ..plain(
                                ResponseView::Okay(
                                    Some(ResponseDataView::BackupStarted { set_name: name }),
                                ),
                            )
                        },
                    ),
                )
            },
        },
        RequestView::Snapshots { set_name, limit } => match find_job(manager.jobs, set_name) {
            None => (manager, ActionView::Reply(plain(unknown_set(set_name)))),
            Some(i) => (
                manager,
                ActionView::Snapshots { target: manager.jobs[i].set.target, limit },
            ),
        },
        RequestView::Mount { set_name, snapshot_id } => match find_job(manager.jobs, set_name) {
            None => (manager, ActionView::Reply(plain(unknown_set(set_name)))),
            Some(i) => if manager.jobs[i].is_mounted {
                (
                    manager,
                    ActionView::Reply(
                        plain(
                            ResponseView::Okay(
                                Some(
                                    ResponseDataView::MountPath {
                                        path: mount_path_of(data_dir, set_name),
                                    },
                                ),
                            ),
                        ),
                    ),
                )
            } else {
                (
                    manager,
                    ActionView::Mount {
                        set_name,
                        target: manager.jobs[i].set.target,
                        snapshot_id,
                        mount_path: mount_path_of(data_dir, set_name),
                        directory_mode: MOUNT_DIRECTORY_MODE,
                    },
                )
            },
        },
        RequestView::Unmount { set_name } => {
            let tasks = match set_name {
                Some(name) => match find_job(manager.jobs, name) {
                    None => None,
                    Some(i) => Some(
                        if manager.jobs[i].is_mounted {
                            seq![manager.jobs[i].teardown()]
                        } else {
                            Seq::empty()
                        },
                    ),
                },
                None => Some(teardowns(manager.jobs)),
            };
            match tasks {
                None => (manager, ActionView::Reply(plain(unknown_set(set_name->0)))),
                Some(tasks) => if tasks.len() == 0 {
                    (manager, ActionView::Reply(plain(ResponseView::Okay(None))))
                } else {
                    (manager, ActionView::Unmount { single: set_name is Some, tasks })
                },
            }
        },
        RequestView::Prune { set_name } => match set_name {
            Some(name) => match find_job(manager.jobs, name) {
                None => (manager, ActionView::Reply(plain(unknown_set(name)))),
                Some(i) => (
                    manager,
                    ActionView::Prune {
                        single: true,
                        sets: seq![
                            manager.jobs[i].set.with_effective_retention(manager.global_retention),
                        ],
                    },
                ),
            },
            None => (
                manager,
                ActionView::Prune {
                    single: false,
                    sets: effective_sets(manager.jobs, manager.global_retention),
                },
            ),
        },
    }
}

fn no_names() -> (out: Vec<String>)
    ensures
        texts(out@) == Seq::<Seq<char>>::empty(),
{
    let out: Vec<String> = Vec::new();
    assert(texts(out@) =~= Seq::<Seq<char>>::empty());
    out
}

fn plain_reply(response: Response) -> (reply: Reply)
    ensures
        reply@ == plain(response@),
{
    Reply { response, spawn: no_names(), shutdown: false, reload: false }
}

/// The error response with the code `code` and the message `message`.
pub fn error_response(code: &str, message: String) -> (response: Response)
    ensures
        response@ == failure(code@, message@),
{
    Response::Error { code: String::from_str(code), message }
}

/// The response to a line that is no request; `reason` is what the parser
/// said of it. The connection stays open.
pub fn invalid_request(reason: &str) -> (response: Response)
    ensures
        response@ == not_a_request(reason@),
{
    error_response(INVALID_REQUEST, String::from_str("Failed to parse JSON: ").concat(reason))
}

fn unknown(name: &str) -> (action: Action)
    ensures
        action@ == ActionView::Reply(plain(unknown_set(name@))),
{
    let message = ManagerError::UnknownSet(String::from_str(name)).message();
    Action::Reply(plain_reply(error_response(UNKNOWN_SET, message)))
}

/// Decides what to do about `request`. See `handled`.
pub fn handle_request(manager: &mut JobManager, request: Request, dirs: &Dirs) -> (action: Action)
    ensures
        (final(manager)@, action@) == handled(old(manager)@, request@, dirs.data_dir@),
{
    match request {
        Request::Ping => Action::Reply(plain_reply(Response::Pong)),
        Request::Status => Action::Probe(Purpose::Status),
        Request::Shutdown => {
            let mut reply = plain_reply(Response::Okay(None));
            reply.shutdown = true;
            Action::Reply(reply)
        },
        Request::ReloadConfig => {
            let mut reply = plain_reply(Response::Okay(None));
            reply.reload = true;
            Action::Reply(reply)
        },
        Request::Backup { set_name } => match set_name {
            None => Action::Probe(Purpose::BackupAll),
            Some(name) => match manager.trigger_backup(name.as_str()) {
                Ok(spawn) => {
                    let mut reply = plain_reply(
                        Response::Okay(Some(ResponseData::BackupStarted { set_name: name.clone() })),
                    );
                    if spawn {
                        let mut names: Vec<String> = Vec::new();
                        names.push(name);
                        assert(texts(names@) =~= seq![name@]);
                        reply.spawn = names;
                    }
                    Action::Reply(reply)
                },
                Err(e) => match e {
                    ManagerError::UnknownSet(_) => unknown(name.as_str()),
                    ManagerError::AlreadyRunning(_) => Action::Reply(
                        plain_reply(error_response(BACKUP_FAILED, e.message())),
                    ),
                },
            },
        },
        Request::Snapshots { set_name, limit } => match manager.get_snapshots(set_name.as_str()) {
            Ok(target) => Action::Snapshots { target, limit },
            Err(_) => unknown(set_name.as_str()),
        },
        Request::Mount { set_name, snapshot_id } => match manager.mount(set_name.as_str()) {
            Ok(MountPlan::AlreadyMounted) => Action::Reply(
                plain_reply(
                    Response::Okay(
                        Some(ResponseData::MountPath { path: mount_path(dirs, set_name.as_str()) }),
                    ),
                ),
            ),
            Ok(MountPlan::Start { target }) => {
                let path = mount_path(dirs, set_name.as_str());
                Action::Mount {
                    set_name,
                    target,
                    snapshot_id,
                    mount_path: path,
                    directory_mode: MOUNT_DIRECTORY_MODE,
                }
            },
            Err(_) => unknown(set_name.as_str()),
        },
        Request::Unmount { set_name } => {
            let plan = match &set_name {
                Some(name) => manager.unmount(Some(name.as_str())),
                None => manager.unmount(None),
            };
            match plan {
                Ok(tasks) => {
                    if tasks.len() == 0 {
                        assert(teardown_views(tasks@).len() == 0);
                        Action::Reply(plain_reply(Response::Okay(None)))
                    } else {
                        assert(teardown_views(tasks@).len() != 0);
                        Action::Unmount { single: set_name.is_some(), tasks }
                    }
                },
                Err(_) => match &set_name {
                    Some(name) => unknown(name.as_str()),
                    None => Action::Reply(plain_reply(Response::Okay(None))),
                },
            }
        },
        Request::Prune { set_name } => {
            let plan = match &set_name {
                Some(name) => manager.prune(Some(name.as_str())),
                None => manager.prune(None),
            };
            match plan {
                Ok(sets) => Action::Prune { single: set_name.is_some(), sets },
                Err(_) => match &set_name {
                    Some(name) => unknown(name.as_str()),
                    None => Action::Reply(plain_reply(Response::Okay(None))),
                },
            }
        },
    }
}


/// The reply to `Status` once the mounts were probed: every job is squared
/// with the look at its mount, and the status of every job is reported.
pub fn status_reply(manager: &mut JobManager, observations: &Vec<MountObservation>) -> (response:
    Response)
    ensures
        final(manager)@.jobs == observed_jobs(old(manager)@.jobs, observation_views(observations@)),
        final(manager)@.global_retention == old(manager)@.global_retention,
        final(manager)@.global_debounce == old(manager)@.global_debounce,
        response@ == ResponseView::Okay(
            Some(ResponseDataView::Status { sets: statuses(final(manager)@.jobs) }),
        ),
{
    let sets = manager.get_status(observations);
    Response::Okay(Some(ResponseData::Status { sets }))
}

/// The reply to `Backup` of all sets once the mounts were probed: every
/// job is squared with the look at its mount and then triggered. The sets
/// that took the trigger are reported as started, the others as failed
/// with the reason.
pub fn backup_all_reply(manager: &mut JobManager, observations: &Vec<MountObservation>) -> (reply:
    Reply)
    ensures
        ({
            let seen = observed_jobs(old(manager)@.jobs, observation_views(observations@));
            &&& final(manager)@.jobs == all_triggered(seen)
            &&& final(manager)@.global_retention == old(manager)@.global_retention
            &&& final(manager)@.global_debounce == old(manager)@.global_debounce
            &&& reply@ == ReplyView {
                spawn: spawned_names(seen),
                ..plain(
                    ResponseView::Okay(
                        Some(
                            ResponseDataView::BackupsTriggered {
                                started: started_names(seen),
                                failed: refusals(seen),
                            },
                        ),
                    ),
                )
            }
        }),
{
    let _ = manager.get_status(observations);
    let report = manager.trigger_all();
    Reply {
        response: Response::Okay(
            Some(ResponseData::BackupsTriggered { started: report.started, failed: report.failed }),
        ),
        spawn: report.spawn,
        shutdown: false,
        reload: false,
    }
}

/// The reply to `Snapshots` once the engine has answered.
pub fn snapshots_reply(result: Result<Vec<SnapshotInfo>, EngineError>) -> (response: Response)
    ensures
        response@ == match result {
            Ok(snapshots) => ResponseView::Okay(
                Some(ResponseDataView::Snapshots { snapshots: snapshot_views(snapshots@) }),
            ),
            Err(e) => failure(RESTIC_ERROR@, e@.message()),
        },
{
    match result {
        Ok(snapshots) => Response::Okay(Some(ResponseData::Snapshots { snapshots })),
        Err(e) => error_response(RESTIC_ERROR, e.message()),
    }
}

/// The reply to `Mount` once the mount was attempted: `started` is the
/// mount process, or why there is none. A process that was started is
/// tracked from now on and the set counts as mounted.
pub fn mount_reply(
    manager: &mut JobManager,
    set_name: &str,
    mount_path: &str,
    started: Result<u32, EngineError>,
) -> (response: Response)
    ensures
        match started {
            Ok(child) => match find_job(old(manager)@.jobs, set_name@) {
                Some(i) => {
                    &&& final(manager)@ == old(manager)@.with_job(
                        i,
                        old(manager)@.jobs[i].mounted_by(child),
                    )
                    &&& response@ == ResponseView::Okay(
                        Some(ResponseDataView::MountPath { path: mount_path@ }),
                    )
                },
                None => final(manager)@ == old(manager)@ && response@ == unknown_set(set_name@),
            },
            Err(e) => final(manager)@ == old(manager)@ && response@ == failure(
                MOUNT_FAILED@,
                e@.message(),
            ),
        },
{
    match started {
        Ok(child) => match manager.mount_started(set_name, child) {
            Ok(()) => Response::Okay(
                Some(ResponseData::MountPath { path: String::from_str(mount_path) }),
            ),
            Err(e) => error_response(UNKNOWN_SET, e.message()),
        },
        Err(e) => error_response(MOUNT_FAILED, e.message()),
    }
}

/// How taking down the mount of one set went.
#[derive(Debug)]
pub struct UnmountResult {
    /// Name of the set.
    pub name: String,
    /// How the unmount helper ended.
    pub helper: HelperOutcome,
    /// Why waiting for the helper failed, where it did.
    pub detail: String,
}

/// What an `UnmountResult` holds, as mathematical values.
pub struct UnmountResultView {
    pub name: Seq<char>,
    pub helper: HelperOutcome,
    pub detail: Seq<char>,
}

impl View for UnmountResult {
    type V = UnmountResultView;

    open spec fn view(&self) -> UnmountResultView {
        UnmountResultView { name: self.name@, helper: self.helper, detail: self.detail@ }
    }
}

/// The views of the results of `v`, in order.
pub open spec fn unmount_views(v: Seq<UnmountResult>) -> Seq<UnmountResultView> {
    Seq::new(v.len(), |i: int| v[i]@)
}

/// The manager after one unmount went as `result` says.
pub open spec fn after_unmount(manager: JobManagerView, result: UnmountResultView) -> JobManagerView {
    match find_job(manager.jobs, result.name) {
        Some(i) if !(result.helper is Interrupted) => manager.with_job(
            i,
            manager.jobs[i].unmounted(),
        ),
        _ => manager,
    }
}

/// The manager after the unmounts went as `results` say, in order.
pub open spec fn after_unmounts(
    manager: JobManagerView,
    results: Seq<UnmountResultView>,
) -> JobManagerView
    decreases results.len(),
{
    if results.len() == 0 {
        manager
    } else {
        after_unmount(after_unmounts(manager, results.drop_last()), results.last())
    }
}

/// The first of the results whose helper could not be waited for.
pub open spec fn first_interrupted(results: Seq<UnmountResultView>) -> Option<UnmountResultView>
    decreases results.len(),
{
    if results.len() == 0 {
        None
    } else {
        match first_interrupted(results.drop_last()) {
            Some(r) => Some(r),
            None => if results.last().helper is Interrupted {
                Some(results.last())
            } else {
                None
            },
        }
    }
}

/// The reply to `Unmount` once the mounts were taken down as `results`
/// say; `single` says whether the request named a set. Every set whose
/// helper ended, well or not, no longer counts as mounted. A request for
/// one set fails if waiting for the helper failed; a request for all sets
/// succeeds regardless.
pub fn unmount_reply(manager: &mut JobManager, single: bool, results: &Vec<UnmountResult>) -> (response:
    Response)
    ensures
        final(manager)@ == after_unmounts(old(manager)@, unmount_views(results@)),
        response@ == (match first_interrupted(unmount_views(results@)) {
            Some(r) if single => failure(RESTIC_ERROR@, r.detail),
            _ => ResponseView::Okay(None),
        }),
{
    let ghost all = unmount_views(results@);
    let mut failed: Option<usize> = None;
    let mut i: usize = 0;
    assert(all.take(0) =~= Seq::<UnmountResultView>::empty());
    while i < results.len()
        invariant
            i <= results.len(),
            all == unmount_views(results@),
            manager@ == after_unmounts(old(manager)@, all.take(i as int)),
            match failed {
                Some(at) => at < results.len() && first_interrupted(all.take(i as int)) == Some(
                    all[at as int],
                ),
                None => first_interrupted(all.take(i as int)) is None,
            },
        decreases results.len() - i,
    {
        proof {
            assert(all.take(i + 1).drop_last() =~= all.take(i as int));
            assert(all.take(i + 1).last() == results@[i as int]@);
        }
        manager.unmount_finished(results[i].name.as_str(), results[i].helper);
        if failed.is_none() {
            if let HelperOutcome::Interrupted = results[i].helper {
                failed = Some(i);
            }
        }
        i += 1;
    }
    assert(all.take(results.len() as int) =~= all);
    match failed {
        Some(at) => {
            if single {
                assert(all[at as int] == results@[at as int]@);
                error_response(RESTIC_ERROR, results[at].detail.clone())
            } else {
                Response::Okay(None)
            }
        },
        None => Response::Okay(None),
    }
}

/// How pruning one set went.
#[derive(Debug)]
pub struct PruneReport {
    /// Name of the set.
    pub name: String,
    /// The bytes reclaimed, or why the set was not pruned.
    pub result: Result<u64, EngineError>,
}

/// What a `PruneReport` holds, as mathematical values.
pub struct PruneReportView {
    pub name: Seq<char>,
    pub result: Result<u64, EngineErrorView>,
}

impl View for PruneReport {
    type V = PruneReportView;

    open spec fn view(&self) -> PruneReportView {
        PruneReportView {
            name: self.name@,
            result: match self.result {
                Ok(n) => Ok(n),
                Err(e) => Err(e@),
            },
        }
    }
}

/// The views of the reports of `v`, in order.
pub open spec fn report_views(v: Seq<PruneReport>) -> Seq<PruneReportView> {
    Seq::new(v.len(), |i: int| v[i]@)
}

/// The sets that were pruned, with the bytes reclaimed, in order.
pub open spec fn pruned(reports: Seq<PruneReportView>) -> Seq<(Seq<char>, u64)>
    decreases reports.len(),
{
    if reports.len() == 0 {
        Seq::empty()
    } else {
        match reports.last().result {
            Ok(n) => pruned(reports.drop_last()).push((reports.last().name, n)),
            Err(_) => pruned(reports.drop_last()),
        }
    }
}

/// The sets that were not pruned, with the reason, in order.
pub open spec fn not_pruned(reports: Seq<PruneReportView>) -> Seq<(Seq<char>, Seq<char>)>
    decreases reports.len(),
{
    if reports.len() == 0 {
        Seq::empty()
    } else {
        match reports.last().result {
            Ok(_) => not_pruned(reports.drop_last()),
            Err(e) => not_pruned(reports.drop_last()).push((reports.last().name, e.message())),
        }
    }
}

/// The names of the sets that were pruned, in order.
pub open spec fn pruned_names(reports: Seq<PruneReportView>) -> Seq<Seq<char>>
    decreases reports.len(),
{
    if reports.len() == 0 {
        Seq::empty()
    } else {
        match reports.last().result {
            Ok(_) => pruned_names(reports.drop_last()).push(reports.last().name),
            Err(_) => pruned_names(reports.drop_last()),
        }
    }
}

/// What is answered to `Prune` once the engine has pruned as `reports`
/// say; `single` says whether the request named a set.
///
/// A request for one set is answered with the bytes reclaimed, or fails
/// with the reason. A request for all sets is answered with the sets that
/// were pruned and those that were not.
pub open spec fn prune_response(single: bool, reports: Seq<PruneReportView>) -> ResponseView {
    if single && reports.len() == 1 {
        match reports[0].result {
            Ok(reclaimed_bytes) => ResponseView::Okay(
                Some(
                    ResponseDataView::PruneResult { set_name: reports[0].name, reclaimed_bytes },
                ),
            ),
            Err(e) => failure(RESTIC_ERROR@, e.message()),
        }
    } else {
        ResponseView::Okay(
            Some(
                ResponseDataView::PrunesTriggered {
                    succeeded: pruned(reports),
                    failed: not_pruned(reports),
                },
            ),
        )
    }
}

/// What a prune comes to.
#[derive(Debug)]
pub struct PruneReply {
    /// The response to write to the connection.
    pub response: Response,
    /// The sets that were pruned. The metrics of each of them, and of
    /// every set that shares its target, are to be refreshed off the
    /// caller's task.
    pub refresh: Vec<String>,
}

/// The reply to `Prune` once the engine has pruned as `reports` say. See
/// `prune_response`.
pub fn prune_reply(single: bool, reports: &Vec<PruneReport>) -> (reply: PruneReply)
    ensures
        reply.response@ == prune_response(single, report_views(reports@)),
        texts(reply.refresh@) == pruned_names(report_views(reports@)),
{
    let ghost all = report_views(reports@);
    let mut succeeded: Vec<(String, u64)> = Vec::new();
    let mut failed: Vec<(String, String)> = Vec::new();
    let mut refresh: Vec<String> = Vec::new();
    let mut i: usize = 0;
    while i < reports.len()
        invariant
            i <= reports.len(),
            all == report_views(reports@),
            sized_names(succeeded@) =~= pruned(all.take(i as int)),
            text_pairs(failed@) =~= not_pruned(all.take(i as int)),
            texts(refresh@) =~= pruned_names(all.take(i as int)),
        decreases reports.len() - i,
    {
        proof {
            assert(all.take(i + 1).drop_last() =~= all.take(i as int));
            assert(all.take(i + 1).last() == reports@[i as int]@);
        }
        match &reports[i].result {
            Ok(n) => {
                let ghost so_far = sized_names(succeeded@);
                let ghost names = texts(refresh@);
                let name = reports[i].name.clone();
                succeeded.push((name.clone(), *n));
                refresh.push(name);
                assert(sized_names(succeeded@) =~= so_far.push((name@, *n)));
                assert(texts(refresh@) =~= names.push(name@));
            },
            Err(e) => {
                let ghost so_far = text_pairs(failed@);
                let name = reports[i].name.clone();
                let reason = e.message();
                failed.push((name, reason));
                assert(text_pairs(failed@) =~= so_far.push((name@, reason@)));
            },
        }
        i += 1;
    }
    assert(all.take(reports.len() as int) =~= all);
    let response = if single && reports.len() == 1 {
        assert(all[0] == reports@[0]@);
        match &reports[0].result {
            Ok(n) => Response::Okay(
                Some(
                    ResponseData::PruneResult {
                        set_name: reports[0].name.clone(),
                        reclaimed_bytes: *n,
                    },
                ),
            ),
            Err(e) => error_response(RESTIC_ERROR, e.message()),
        }
    } else {
        Response::Okay(Some(ResponseData::PrunesTriggered { succeeded, failed }))
    };
    PruneReply { response, refresh }
}


/// What a connection received from the manager's broadcast channel.
#[derive(Debug)]
pub enum Broadcast {
    /// An event.
    Event(ResponseData),
    /// The connection fell behind and this many events were dropped for
    /// it.
    Lagged(u64),
    /// The channel is closed: the manager is gone.
    Closed,
}

/// What a connection does about what it received.
#[derive(Debug)]
pub enum Delivery {
    /// Write the response to the connection.
    Write(Response),
    /// Nothing; go on waiting.
    Skip,
    /// Close the connection.
    Close,
}

/// What a connection does about what it received from the broadcast
/// channel: an event is written to the connection as a successful
/// response that carries it; dropped events are passed over, the client
/// can ask for the status; a closed channel closes the connection.
pub fn on_broadcast(received: Broadcast) -> (delivery: Delivery)
    ensures
        match received {
            Broadcast::Event(data) => delivery matches Delivery::Write(response) && response@
                == ResponseView::Okay(Some(data@)),
            Broadcast::Lagged(_) => delivery is Skip,
            Broadcast::Closed => delivery is Close,
        },
{
    match received {
        Broadcast::Event(data) => Delivery::Write(Response::Okay(Some(data))),
        Broadcast::Lagged(_) => Delivery::Skip,
        Broadcast::Closed => Delivery::Close,
    }
}


/// Unmounting an orphan: a set that is mounted without a tracked process
/// is unmounted by the helper alone, and once the helper has succeeded the
/// set no longer counts as mounted. No other job changes.
pub proof fn lemma_orphan_unmount_clears(manager: JobManagerView, i: int, detail: Seq<char>)
    requires
        manager.valid(),
        0 <= i < manager.jobs.len(),
        manager.jobs[i].is_mounted,
        manager.jobs[i].mount_child is None,
    ensures
        ({
            let task = manager.jobs[i].teardown();
            let after = after_unmount(
                manager,
                UnmountResultView { name: task.name, helper: HelperOutcome::Succeeded, detail },
            );
            &&& child_action_for(HelperOutcome::Succeeded, task.mount_child) == ChildAction::Nothing
            &&& after.jobs.len() == manager.jobs.len()
            &&& !after.jobs[i].is_mounted
            &&& after.jobs[i].mount_child is None
            &&& forall|k: int| 0 <= k < manager.jobs.len() && k != i ==> after.jobs[k] == manager.jobs[k]
        }),
{
    lemma_find_job(manager.jobs, manager.jobs[i].set.name);
}

} // verus!
