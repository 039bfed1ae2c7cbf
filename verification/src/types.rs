//! The values that the daemon reports about its backup sets.

use crate::config::{clone_opt_text, clone_texts};
use crate::text::{opt_text, texts};
use vstd::prelude::*;

verus! {

/// Where the job of a backup set stands.
#[derive(Clone, Copy, Debug, PartialEq, Eq, Structural)]
pub enum JobState {
    /// Nothing to do.
    Idle,
    /// A change was seen; a backup starts once no further change has come
    /// for the debounce delay.
    Debouncing { remaining_secs: u64 },
    /// A backup is in progress.
    Running,
    /// The last backup failed.
    Error,
}

/// A point in UTC time: whole seconds since the Unix epoch and the
/// nanoseconds into that second.
#[derive(Clone, Copy, Debug, PartialEq, Eq, Structural)]
pub struct Timestamp {
    pub secs: i64,
    pub nanos: u32,
}

/// A span of time in seconds with a fraction, held as the bit pattern of
/// the IEEE 754 binary64 number that measures it. The library carries such
/// a value along and never computes with it.
#[derive(Clone, Copy, Debug, PartialEq, Eq, Structural)]
pub struct Seconds {
    pub bits: u64,
}

impl Seconds {
    /// The span of length zero.
    pub fn zero() -> (s: Seconds)
        ensures
            s.bits == 0,
    {
        Seconds { bits: 0 }
    }
}

/// How one backup run ended.
#[derive(Debug)]
pub struct BackupResult {
    /// Identifier of the snapshot that the engine wrote.
    pub snapshot_id: String,
    /// When the run ended.
    pub timestamp: Timestamp,
    /// Bytes that the run added to the repository.
    pub added_bytes: u64,
    /// How long the run took.
    pub duration_secs: Seconds,
    /// Whether a snapshot was written.
    pub success: bool,
    /// Why the run failed; present exactly when it did.
    pub error_message: Option<String>,
}

/// What a `BackupResult` holds, as mathematical values.
pub struct BackupResultView {
    pub snapshot_id: Seq<char>,
    pub timestamp: Timestamp,
    pub added_bytes: u64,
    pub duration_secs: Seconds,
    pub success: bool,
    pub error_message: Option<Seq<char>>,
}

impl View for BackupResult {
    type V = BackupResultView;

    open spec fn view(&self) -> BackupResultView {
        BackupResultView {
            snapshot_id: self.snapshot_id@,
            timestamp: self.timestamp,
            added_bytes: self.added_bytes,
            duration_secs: self.duration_secs,
            success: self.success,
            error_message: opt_text(self.error_message),
        }
    }
}

impl BackupResultView {
    /// A result carries an error message exactly when the run failed.
    pub open spec fn well_formed(self) -> bool {
        self.error_message is Some <==> !self.success
    }
}

impl Clone for BackupResult {
    fn clone(&self) -> (out: Self)
        ensures
            out@ == self@,
    {
        BackupResult {
            snapshot_id: self.snapshot_id.clone(),
            timestamp: self.timestamp,
            added_bytes: self.added_bytes,
            duration_secs: self.duration_secs,
            success: self.success,
            error_message: clone_opt_text(&self.error_message),
        }
    }
}

/// The view of an optional backup result.
pub open spec fn opt_result(o: Option<BackupResult>) -> Option<BackupResultView> {
    match o {
        Some(r) => Some(r@),
        None => None,
    }
}

/// A copy of an optional backup result.
pub fn clone_opt_result(o: &Option<BackupResult>) -> (out: Option<BackupResult>)
    ensures
        opt_result(out) == opt_result(*o),
{
    match o {
        Some(r) => Some(r.clone()),
        None => None,
    }
}

/// One snapshot of a repository, as the engine lists it.
#[derive(Debug)]
pub struct SnapshotInfo {
    /// Full identifier.
    pub id: String,
    /// Prefix of the identifier.
    pub short_id: String,
    /// When the snapshot was taken.
    pub timestamp: Timestamp,
    /// The paths that the snapshot holds.
    pub paths: Vec<String>,
    /// The tags of the snapshot, possibly none.
    pub tags: Vec<String>,
    /// Size of the snapshot's data, where the engine reports it.
    pub total_bytes: Option<u64>,
}

/// What a `SnapshotInfo` holds, as mathematical values.
pub struct SnapshotInfoView {
    pub id: Seq<char>,
    pub short_id: Seq<char>,
    pub timestamp: Timestamp,
    pub paths: Seq<Seq<char>>,
    pub tags: Seq<Seq<char>>,
    pub total_bytes: Option<u64>,
}

impl View for SnapshotInfo {
    type V = SnapshotInfoView;

    open spec fn view(&self) -> SnapshotInfoView {
        SnapshotInfoView {
            id: self.id@,
            short_id: self.short_id@,
            timestamp: self.timestamp,
            paths: texts(self.paths@),
            tags: texts(self.tags@),
            total_bytes: self.total_bytes,
        }
    }
}

impl Clone for SnapshotInfo {
    fn clone(&self) -> (out: Self)
        ensures
            out@ == self@,
    {
        SnapshotInfo {
            id: self.id.clone(),
            short_id: self.short_id.clone(),
            timestamp: self.timestamp,
            paths: clone_texts(&self.paths),
            tags: clone_texts(&self.tags),
            total_bytes: self.total_bytes,
        }
    }
}

/// The views of the snapshots of `v`, in order.
pub open spec fn snapshot_views(v: Seq<SnapshotInfo>) -> Seq<SnapshotInfoView> {
    Seq::new(v.len(), |i: int| v[i]@)
}

/// What the daemon reports of one backup set.
#[derive(Debug)]
pub struct SetStatus {
    /// Name of the set.
    pub name: String,
    /// Where its job stands.
    pub state: JobState,
    /// How the most recent backup ended, if one is known.
    pub last_backup: Option<BackupResult>,
    /// The source directories that are watched.
    pub source_paths: Vec<String>,
    /// Path of the repository.
    pub target: String,
    /// Whether the repository is mounted.
    pub is_mounted: bool,
    /// Number of snapshots in the repository, where known.
    pub snapshot_count: Option<u64>,
    /// Size of the repository in bytes, where known.
    pub total_bytes: Option<u64>,
}

/// What a `SetStatus` holds, as mathematical values.
pub struct SetStatusView {
    pub name: Seq<char>,
    pub state: JobState,
    pub last_backup: Option<BackupResultView>,
    pub source_paths: Seq<Seq<char>>,
    pub target: Seq<char>,
    pub is_mounted: bool,
    pub snapshot_count: Option<u64>,
    pub total_bytes: Option<u64>,
}

impl View for SetStatus {
    type V = SetStatusView;

    open spec fn view(&self) -> SetStatusView {
        SetStatusView {
            name: self.name@,
            state: self.state,
            last_backup: opt_result(self.last_backup),
            source_paths: texts(self.source_paths@),
            target: self.target@,
            is_mounted: self.is_mounted,
            snapshot_count: self.snapshot_count,
            total_bytes: self.total_bytes,
        }
    }
}

/// The views of the statuses of `v`, in order.
pub open spec fn status_views(v: Seq<SetStatus>) -> Seq<SetStatusView> {
    Seq::new(v.len(), |i: int| v[i]@)
}

} // verus!
