//! The mount tracker: what the daemon knows of the mount of a set, and how
//! it squares that with what the mount process and the kernel's mount
//! table show.

use crate::job::{Job, JobView};
use vstd::prelude::*;

verus! {

/// Milliseconds that a mount process gets to fail before its mount counts
/// as started.
pub const MOUNT_STARTUP_CHECK_MS: u64 = 200;

/// The permission bits of a mount directory: everything for its owner and
/// nothing for anybody else, since it shows the content of backups.
pub const MOUNT_DIRECTORY_MODE: u32 = 0o700;

/// Milliseconds that a mount process gets to exit by itself after the
/// unmount helper succeeded.
pub const MOUNT_GRACEFUL_EXIT_TIMEOUT_MS: u64 = 2000;

/// What a look at the tracked mount process showed.
#[derive(Clone, Copy, Debug, PartialEq, Eq, Structural)]
pub enum ChildProbe {
    /// The process is running.
    Running,
    /// The process has exited.
    Exited,
    /// The look failed, or there was no process to look at.
    Unknown,
}

impl JobView {
    /// The job after a look at its mount: `child` is what the tracked mount
    /// process showed and `listed` whether the kernel's mount table lists
    /// the mount path.
    ///
    /// A tracked process that runs keeps the job mounted. One that has
    /// exited is forgotten, and the job stays mounted only if the mount
    /// table still lists the path: the mount is then an orphan. Where the
    /// look at the process failed nothing changes. Without a tracked
    /// process the mount table decides.
    pub open spec fn reconciled(self, child: ChildProbe, listed: bool) -> JobView {
        match self.mount_child {
            Some(_) => match child {
                ChildProbe::Running => JobView { is_mounted: true, ..self },
                ChildProbe::Exited => JobView { mount_child: None, is_mounted: listed, ..self },
                ChildProbe::Unknown => self,
            },
            None => JobView { is_mounted: listed, ..self },
        }
    }

    /// The job after its mount was started by the process `child`.
    pub open spec fn mounted_by(self, child: u32) -> JobView {
        JobView { mount_child: Some(child), is_mounted: true, ..self }
    }

    /// The job after its mount was taken down.
    pub open spec fn unmounted(self) -> JobView {
        JobView { mount_child: None, is_mounted: false, ..self }
    }
}

impl Job {
    /// Squares the job with a look at its mount. See `JobView::reconciled`.
    pub fn reconcile(&mut self, child: ChildProbe, listed: bool)
        ensures
            final(self)@ == old(self)@.reconciled(child, listed),
    {
        match self.mount_child {
            Some(_) => match child {
                ChildProbe::Running => {
                    self.is_mounted = true;
                },
                ChildProbe::Exited => {
                    self.mount_child = None;
                    self.is_mounted = listed;
                },
                ChildProbe::Unknown => {},
            },
            None => {
                self.is_mounted = listed;
            },
        }
    }
}

/// How the unmount helper ended.
#[derive(Clone, Copy, Debug, PartialEq, Eq, Structural)]
pub enum HelperOutcome {
    /// The helper ran and reported success.
    Succeeded,
    /// The helper is absent, or ran and reported failure.
    Failed,
    /// The helper was started and waiting for it failed.
    Interrupted,
}

/// What to do with the tracked mount process after the unmount helper ran.
#[derive(Clone, Copy, Debug, PartialEq, Eq, Structural)]
pub enum ChildAction {
    /// Nothing: no process is tracked, or the unmount is given up.
    Nothing,
    /// Kill the process.
    Kill { child: u32 },
    /// Wait up to `grace_ms` milliseconds for the process to exit, and kill
    /// it if it has not.
    AwaitThenKill { child: u32, grace_ms: u64 },
}

/// What to do with the tracked mount process `mount_child` after the
/// unmount helper ended as `helper`: after a success the process gets the
/// grace period to exit and is killed if it has not by then; after a
/// failure it is killed at once. Without a tracked process there is
/// nothing to do.
pub open spec fn child_action_for(helper: HelperOutcome, mount_child: Option<u32>) -> ChildAction {
    match (helper, mount_child) {
        (HelperOutcome::Succeeded, Some(child)) => ChildAction::AwaitThenKill {
            child,
            grace_ms: MOUNT_GRACEFUL_EXIT_TIMEOUT_MS,
        },
        (HelperOutcome::Failed, Some(child)) => ChildAction::Kill { child },
        _ => ChildAction::Nothing,
    }
}

/// Decides what to do with the tracked mount process after the unmount
/// helper ran. See `child_action_for`.
pub fn child_action(helper: HelperOutcome, mount_child: Option<u32>) -> (action: ChildAction)
    ensures
        action == child_action_for(helper, mount_child),
{
    match helper {
        HelperOutcome::Succeeded => match mount_child {
            Some(child) => ChildAction::AwaitThenKill {
                child,
                grace_ms: MOUNT_GRACEFUL_EXIT_TIMEOUT_MS,
            },
            None => ChildAction::Nothing,
        },
        HelperOutcome::Failed => match mount_child {
            Some(child) => ChildAction::Kill { child },
            None => ChildAction::Nothing,
        },
        HelperOutcome::Interrupted => ChildAction::Nothing,
    }
}

/// How a mount process fared in its startup window.
#[derive(Debug)]
pub enum MountStartup {
    /// The process is still running.
    Alive,
    /// The process has exited with success.
    ExitedCleanly,
    /// The process has exited with a failure; holds what it wrote to its
    /// standard error.
    ExitedWithFailure(String),
    /// The look at the process failed.
    Unknown,
}

/// The message of the error for a mount process that failed at startup.
pub open spec fn mount_failure(stderr: Seq<char>) -> Seq<char> {
    "Restic mount failed: "@ + stderr
}

/// Mounted means listed or alive: after a look at the mount that told
/// whether a tracked process runs, the job counts as mounted exactly if
/// the mount table lists the mount path or the tracked process is alive,
/// and a process is tracked exactly if it is alive.
pub proof fn lemma_mounted_iff_listed_or_alive(job: JobView, child: ChildProbe, listed: bool)
    requires
        job.well_formed(),
        job.mount_child is Some ==> !(child is Unknown),
    ensures
        ({
            let after = job.reconciled(child, listed);
            let alive = job.mount_child is Some && child is Running;
            &&& after.is_mounted <==> listed || alive
            &&& after.mount_child is Some <==> alive
            &&& after.well_formed()
        }),
{
}

} // verus!
