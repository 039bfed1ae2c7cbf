//! The messages that clients and the daemon exchange.

use crate::text::{opt_text, texts};
use crate::types::{
    snapshot_views, status_views, Seconds, SetStatus, SetStatusView, SnapshotInfo, SnapshotInfoView,
};
use vstd::prelude::*;

pub mod error_codes;

verus! {

/// What a client asks of the daemon.
#[derive(Debug)]
#[allow(inconsistent_fields)]
pub enum Request {
    /// Report the status of all backup sets.
    Status,
    /// Start a backup of one set, or of all where no set is named.
    Backup { set_name: Option<String> },
    /// Enforce retention on one set, or on all where no set is named.
    Prune { set_name: Option<String> },
    /// List the snapshots of a set, the most recent `limit` where given.
    Snapshots { set_name: String, limit: Option<usize> },
    /// Mount a snapshot of a set, the latest where none is named.
    Mount { set_name: String, snapshot_id: Option<String> },
    /// Unmount one set, or all where no set is named.
    Unmount { set_name: Option<String> },
    /// Shut the daemon down.
    Shutdown,
    /// Read the configuration again.
    ReloadConfig,
    /// Answer `Pong`.
    Ping,
}

/// What a `Request` holds, as mathematical values.
#[allow(inconsistent_fields)]
pub enum RequestView {
    Status,
    Backup { set_name: Option<Seq<char>> },
    Prune { set_name: Option<Seq<char>> },
    Snapshots { set_name: Seq<char>, limit: Option<usize> },
    Mount { set_name: Seq<char>, snapshot_id: Option<Seq<char>> },
    Unmount { set_name: Option<Seq<char>> },
    Shutdown,
    ReloadConfig,
    Ping,
}

impl View for Request {
    type V = RequestView;

    open spec fn view(&self) -> RequestView {
        match *self {
            Request::Status => RequestView::Status,
            Request::Backup { set_name } => RequestView::Backup { set_name: opt_text(set_name) },
            Request::Prune { set_name } => RequestView::Prune { set_name: opt_text(set_name) },
            Request::Snapshots { set_name, limit } => RequestView::Snapshots {
                set_name: set_name@,
                limit,
            },
            Request::Mount { set_name, snapshot_id } => RequestView::Mount {
                set_name: set_name@,
                snapshot_id: opt_text(snapshot_id),
            },
            Request::Unmount { set_name } => RequestView::Unmount { set_name: opt_text(set_name) },
            Request::Shutdown => RequestView::Shutdown,
            Request::ReloadConfig => RequestView::ReloadConfig,
            Request::Ping => RequestView::Ping,
        }
    }
}

/// The views of a list of name and message pairs.
pub open spec fn text_pairs(v: Seq<(String, String)>) -> Seq<(Seq<char>, Seq<char>)> {
    Seq::new(v.len(), |i: int| (v[i].0@, v[i].1@))
}

/// The views of a list of name and byte count pairs.
pub open spec fn sized_names(v: Seq<(String, u64)>) -> Seq<(Seq<char>, u64)> {
    Seq::new(v.len(), |i: int| (v[i].0@, v[i].1))
}

/// What a successful response, or an event, carries.
#[derive(Debug)]
pub enum ResponseData {
    /// The status of all backup sets.
    Status { sets: Vec<SetStatus> },
    /// The snapshots of a set.
    Snapshots { snapshots: Vec<SnapshotInfo> },
    /// A backup of the set was started.
    BackupStarted { set_name: String },
    /// The sets whose backup was started, and those whose backup could not
    /// be, each with the reason.
    BackupsTriggered { started: Vec<String>, failed: Vec<(String, String)> },
    /// A backup of the set has ended with a snapshot.
    BackupComplete { set_name: String, snapshot_id: String, added_bytes: u64, duration_secs: Seconds },
    /// A backup of the set has failed.
    BackupFailed { set_name: String, error: String },
    /// Where the repository was mounted.
    MountPath { path: String },
    /// Retention was enforced on the set.
    PruneResult { set_name: String, reclaimed_bytes: u64 },
    /// The sets on which retention was enforced, with the bytes reclaimed,
    /// and those on which it failed, with the reason.
    PrunesTriggered { succeeded: Vec<(String, u64)>, failed: Vec<(String, String)> },
    /// Retention was enforced on the set after a backup.
    PruneComplete { set_name: String, reclaimed_bytes: u64 },
}

/// What a `ResponseData` holds, as mathematical values.
pub enum ResponseDataView {
    Status { sets: Seq<SetStatusView> },
    Snapshots { snapshots: Seq<SnapshotInfoView> },
    BackupStarted { set_name: Seq<char> },
    BackupsTriggered { started: Seq<Seq<char>>, failed: Seq<(Seq<char>, Seq<char>)> },
    BackupComplete {
        set_name: Seq<char>,
        snapshot_id: Seq<char>,
        added_bytes: u64,
        duration_secs: Seconds,
    },
    BackupFailed { set_name: Seq<char>, error: Seq<char> },
    MountPath { path: Seq<char> },
    PruneResult { set_name: Seq<char>, reclaimed_bytes: u64 },
    PrunesTriggered { succeeded: Seq<(Seq<char>, u64)>, failed: Seq<(Seq<char>, Seq<char>)> },
    PruneComplete { set_name: Seq<char>, reclaimed_bytes: u64 },
}

impl View for ResponseData {
    type V = ResponseDataView;

    open spec fn view(&self) -> ResponseDataView {
        match *self {
            ResponseData::Status { sets } => ResponseDataView::Status { sets: status_views(sets@) },
            ResponseData::Snapshots { snapshots } => ResponseDataView::Snapshots {
                snapshots: snapshot_views(snapshots@),
            },
            ResponseData::BackupStarted { set_name } => ResponseDataView::BackupStarted {
                set_name: set_name@,
            },
            ResponseData::BackupsTriggered { started, failed } => ResponseDataView::BackupsTriggered {
                started: texts(started@),
                failed: text_pairs(failed@),
            },
            ResponseData::BackupComplete {
                set_name,
                snapshot_id,
                added_bytes,
                duration_secs,
            } => ResponseDataView::BackupComplete {
                set_name: set_name@,
                snapshot_id: snapshot_id@,
                added_bytes,
                duration_secs,
            },
            ResponseData::BackupFailed { set_name, error } => ResponseDataView::BackupFailed {
                set_name: set_name@,
                error: error@,
            },
            ResponseData::MountPath { path } => ResponseDataView::MountPath { path: path@ },
            ResponseData::PruneResult { set_name, reclaimed_bytes } => ResponseDataView::PruneResult {
                set_name: set_name@,
                reclaimed_bytes,
            },
            ResponseData::PrunesTriggered { succeeded, failed } => ResponseDataView::PrunesTriggered {
                succeeded: sized_names(succeeded@),
                failed: text_pairs(failed@),
            },
            ResponseData::PruneComplete { set_name, reclaimed_bytes } => ResponseDataView::PruneComplete {
                set_name: set_name@,
                reclaimed_bytes,
            },
        }
    }
}

/// The view of optional response data.
pub open spec fn opt_data(o: Option<ResponseData>) -> Option<ResponseDataView> {
    match o {
        Some(d) => Some(d@),
        None => None,
    }
}

/// The views of the events of `v`, in order.
pub open spec fn data_views(v: Seq<ResponseData>) -> Seq<ResponseDataView> {
    Seq::new(v.len(), |i: int| v[i]@)
}

/// What the daemon answers.
#[derive(Debug)]
pub enum Response {
    /// The request succeeded. On the wire this variant is called `Ok`.
    Okay(Option<ResponseData>),
    /// The request failed: a code for programs and a message for people.
    Error { code: String, message: String },
    /// The answer to `Ping`.
    Pong,
}

/// What a `Response` holds, as mathematical values.
pub enum ResponseView {
    Okay(Option<ResponseDataView>),
    Error { code: Seq<char>, message: Seq<char> },
    Pong,
}

impl View for Response {
    type V = ResponseView;

    open spec fn view(&self) -> ResponseView {
        match *self {
            Response::Okay(data) => ResponseView::Okay(opt_data(data)),
            Response::Error { code, message } => ResponseView::Error {
                code: code@,
                message: message@,
            },
            Response::Pong => ResponseView::Pong,
        }
    }
}

} // verus!
