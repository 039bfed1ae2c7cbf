use backutil::config::{BackupSet, Config, GlobalConfig, RetentionPolicy};
use backutil::executor::EngineError;
use backutil::ipc::error_codes;
use backutil::ipc::{Request, Response, ResponseData};
use backutil::manager::{JobManager, MountObservation};
use backutil::mount::{ChildProbe, HelperOutcome};
use backutil::paths::Dirs;
use backutil::server::{
    backup_all_reply, error_response, handle_request, invalid_request, mount_reply, on_broadcast,
    prune_reply, snapshots_reply, status_reply, unmount_reply, Action, Broadcast, Delivery,
    PruneReport, Purpose, Reply, UnmountResult,
};
use backutil::types::{JobState, SnapshotInfo, Timestamp};

fn set(name: &str, target: &str) -> BackupSet {
    BackupSet {
        name: name.to_string(),
        source: Some(format!("/src/{}", name)),
        sources: None,
        target: target.to_string(),
        exclude: None,
        debounce_seconds: None,
        retention: None,
    }
}

fn manager() -> JobManager {
    JobManager::new(&Config {
        global: GlobalConfig {
            debounce_seconds: 60,
            retention: Some(RetentionPolicy { keep_last: Some(5), ..RetentionPolicy::default() }),
        },
        backup_sets: vec![set("test-set", "/r1"), set("other", "/r2")],
    })
}

fn dirs() -> Dirs {
    Dirs { config_dir: "/c/backutil".to_string(), data_dir: "/d/backutil".to_string() }
}

fn reply(action: Action) -> Reply {
    match action {
        Action::Reply(r) => r,
        other => panic!("expected a reply, got {:?}", other),
    }
}

fn error_of(response: &Response) -> (String, String) {
    match response {
        Response::Error { code, message } => (code.clone(), message.clone()),
        other => panic!("expected an error, got {:?}", other),
    }
}

#[test]
fn error_codes_are_contract() {
    assert_eq!(error_codes::UNKNOWN_SET, "UnknownSet");
    assert_eq!(error_codes::BACKUP_FAILED, "BackupFailed");
    assert_eq!(error_codes::RESTIC_ERROR, "ResticError");
    assert_eq!(error_codes::MOUNT_FAILED, "MountFailed");
    assert_eq!(error_codes::NOT_MOUNTED, "NotMounted");
    assert_eq!(error_codes::DAEMON_BUSY, "DaemonBusy");
    assert_eq!(error_codes::INVALID_REQUEST, "InvalidRequest");
}

#[test]
fn ping_is_answered_pong() {
    let mut m = manager();
    let r = reply(handle_request(&mut m, Request::Ping, &dirs()));
    assert!(matches!(r.response, Response::Pong));
    assert!(r.spawn.is_empty());
    assert!(!r.shutdown);
    assert!(!r.reload);
}

#[test]
fn shutdown_and_reload_are_acknowledged() {
    let mut m = manager();
    let r = reply(handle_request(&mut m, Request::Shutdown, &dirs()));
    assert!(matches!(r.response, Response::Okay(None)));
    assert!(r.shutdown);
    assert!(!r.reload);
    let r = reply(handle_request(&mut m, Request::ReloadConfig, &dirs()));
    assert!(matches!(r.response, Response::Okay(None)));
    assert!(!r.shutdown);
    assert!(r.reload);
}

#[test]
fn status_probes_then_reports() {
    let mut m = manager();
    assert!(matches!(handle_request(&mut m, Request::Status, &dirs()), Action::Probe(Purpose::Status)));
    let seen = vec![MountObservation {
        name: "other".to_string(),
        child: ChildProbe::Unknown,
        listed: true,
    }];
    match status_reply(&mut m, &seen) {
        Response::Okay(Some(ResponseData::Status { sets })) => {
            assert_eq!(sets.len(), 2);
            assert_eq!(sets[0].name, "test-set");
            assert!(!sets[0].is_mounted);
            assert_eq!(sets[1].name, "other");
            assert!(sets[1].is_mounted);
        }
        other => panic!("Unexpected response: {:?}", other),
    }
}

#[test]
fn backup_of_one_set() {
    let mut m = manager();
    let r = reply(handle_request(
        &mut m,
        Request::Backup { set_name: Some("test-set".to_string()) },
        &dirs(),
    ));
    match &r.response {
        Response::Okay(Some(ResponseData::BackupStarted { set_name })) => {
            assert_eq!(set_name, "test-set")
        }
        other => panic!("Unexpected response: {:?}", other),
    }
    assert_eq!(r.spawn, vec!["test-set"]);
    assert_eq!(m.job("test-set").unwrap().state, JobState::Running);

    let r = reply(handle_request(
        &mut m,
        Request::Backup { set_name: Some("test-set".to_string()) },
        &dirs(),
    ));
    assert_eq!(
        error_of(&r.response),
        ("BackupFailed".to_string(), "Backup for set test-set is already running".to_string())
    );
    assert!(r.spawn.is_empty());

    let r = reply(handle_request(
        &mut m,
        Request::Backup { set_name: Some("nope".to_string()) },
        &dirs(),
    ));
    assert_eq!(
        error_of(&r.response),
        ("UnknownSet".to_string(), "Unknown backup set: nope".to_string())
    );
}

#[test]
fn backup_while_debouncing_needs_no_new_worker() {
    let mut m = manager();
    m.handle_file_change("other", 0).unwrap();
    let r = reply(handle_request(
        &mut m,
        Request::Backup { set_name: Some("other".to_string()) },
        &dirs(),
    ));
    assert!(matches!(r.response, Response::Okay(Some(ResponseData::BackupStarted { .. }))));
    assert!(r.spawn.is_empty());
    assert!(m.job("other").unwrap().immediate_trigger);
}

#[test]
fn backup_of_all_sets() {
    let mut m = manager();
    m.trigger_backup("other").unwrap();
    assert!(matches!(
        handle_request(&mut m, Request::Backup { set_name: None }, &dirs()),
        Action::Probe(Purpose::BackupAll)
    ));
    let r = backup_all_reply(&mut m, &vec![]);
    match &r.response {
        Response::Okay(Some(ResponseData::BackupsTriggered { started, failed })) => {
            assert_eq!(started, &vec!["test-set".to_string()]);
            assert_eq!(
                failed,
                &vec![("other".to_string(), "Backup for set other is already running".to_string())]
            );
        }
        other => panic!("Unexpected response: {:?}", other),
    }
    assert_eq!(r.spawn, vec!["test-set"]);
    assert!(!r.shutdown);
}

#[test]
fn snapshots_request_and_reply() {
    let mut m = manager();
    match handle_request(
        &mut m,
        Request::Snapshots { set_name: "other".to_string(), limit: Some(3) },
        &dirs(),
    ) {
        Action::Snapshots { target, limit } => {
            assert_eq!(target, "/r2");
            assert_eq!(limit, Some(3));
        }
        other => panic!("unexpected {:?}", other),
    }
    let r = reply(handle_request(
        &mut m,
        Request::Snapshots { set_name: "nope".to_string(), limit: None },
        &dirs(),
    ));
    assert_eq!(error_of(&r.response).0, "UnknownSet");

    let listed = vec![SnapshotInfo {
        id: "abcdef".to_string(),
        short_id: "abc".to_string(),
        timestamp: Timestamp { secs: 1, nanos: 2 },
        paths: vec![],
        tags: vec![],
        total_bytes: Some(5),
    }];
    match snapshots_reply(Ok(listed)) {
        Response::Okay(Some(ResponseData::Snapshots { snapshots })) => {
            assert_eq!(snapshots.len(), 1);
            assert_eq!(snapshots[0].short_id, "abc");
        }
        other => panic!("Unexpected response: {:?}", other),
    }
    assert_eq!(
        error_of(&snapshots_reply(Err(EngineError::Failed("Restic error: x".to_string())))),
        ("ResticError".to_string(), "Restic error: x".to_string())
    );
    assert_eq!(
        error_of(&snapshots_reply(Err(EngineError::Cancelled))),
        ("ResticError".to_string(), "Operation cancelled".to_string())
    );
}

#[test]
fn mount_request_and_reply() {
    let mut m = manager();
    let request = || Request::Mount { set_name: "test-set".to_string(), snapshot_id: Some("abc".to_string()) };
    match handle_request(&mut m, request(), &dirs()) {
        Action::Mount { set_name, target, snapshot_id, mount_path, directory_mode } => {
            assert_eq!(directory_mode, 0o700);
            assert_eq!(set_name, "test-set");
            assert_eq!(target, "/r1");
            assert_eq!(snapshot_id.as_deref(), Some("abc"));
            assert_eq!(mount_path, "/d/backutil/mnt/test-set");
        }
        other => panic!("unexpected {:?}", other),
    }
    let failed = mount_reply(
        &mut m,
        "test-set",
        "/d/backutil/mnt/test-set",
        Err(EngineError::Failed("Restic mount failed: busy".to_string())),
    );
    assert_eq!(
        error_of(&failed),
        ("MountFailed".to_string(), "Restic mount failed: busy".to_string())
    );
    assert!(!m.job("test-set").unwrap().is_mounted);

    match mount_reply(&mut m, "test-set", "/d/backutil/mnt/test-set", Ok(31337)) {
        Response::Okay(Some(ResponseData::MountPath { path })) => {
            assert_eq!(path, "/d/backutil/mnt/test-set")
        }
        other => panic!("Unexpected response to Mount: {:?}", other),
    }
    assert!(m.job("test-set").unwrap().is_mounted);
    assert_eq!(m.job("test-set").unwrap().mount_child, Some(31337));

    // Mounting again is answered with the path and starts nothing.
    match reply(handle_request(&mut m, request(), &dirs())).response {
        Response::Okay(Some(ResponseData::MountPath { path })) => {
            assert_eq!(path, "/d/backutil/mnt/test-set")
        }
        other => panic!("Unexpected response to Mount: {:?}", other),
    }

    let r = reply(handle_request(
        &mut m,
        Request::Mount { set_name: "B".to_string(), snapshot_id: None },
        &dirs(),
    ));
    assert_eq!(error_of(&r.response), ("UnknownSet".to_string(), "Unknown backup set: B".to_string()));
    assert_eq!(error_of(&mount_reply(&mut m, "B", "/p", Ok(1))).0, "UnknownSet");
}

#[test]
fn unmount_request_and_reply() {
    let mut m = manager();
    let r = reply(handle_request(&mut m, Request::Unmount { set_name: None }, &dirs()));
    assert!(matches!(r.response, Response::Okay(None)));
    let r = reply(handle_request(
        &mut m,
        Request::Unmount { set_name: Some("other".to_string()) },
        &dirs(),
    ));
    assert!(matches!(r.response, Response::Okay(None)));
    let r = reply(handle_request(
        &mut m,
        Request::Unmount { set_name: Some("nope".to_string()) },
        &dirs(),
    ));
    assert_eq!(error_of(&r.response).0, "UnknownSet");

    m.mount_started("test-set", 10).unwrap();
    m.mount_started("other", 11).unwrap();
    match handle_request(&mut m, Request::Unmount { set_name: Some("other".to_string()) }, &dirs()) {
        Action::Unmount { single, tasks } => {
            assert!(single);
            assert_eq!(tasks.len(), 1);
            assert_eq!(tasks[0].name, "other");
            assert_eq!(tasks[0].mount_child, Some(11));
        }
        other => panic!("unexpected {:?}", other),
    }
    let interrupted = vec![UnmountResult {
        name: "other".to_string(),
        helper: HelperOutcome::Interrupted,
        detail: "wait failed".to_string(),
    }];
    assert_eq!(
        error_of(&unmount_reply(&mut m, true, &interrupted)),
        ("ResticError".to_string(), "wait failed".to_string())
    );
    assert!(m.job("other").unwrap().is_mounted);
    assert!(matches!(unmount_reply(&mut m, false, &interrupted), Response::Okay(None)));

    match handle_request(&mut m, Request::Unmount { set_name: None }, &dirs()) {
        Action::Unmount { single, tasks } => {
            assert!(!single);
            assert_eq!(tasks.len(), 2);
        }
        other => panic!("unexpected {:?}", other),
    }
    let done = vec![
        UnmountResult { name: "test-set".to_string(), helper: HelperOutcome::Succeeded, detail: String::new() },
        UnmountResult { name: "other".to_string(), helper: HelperOutcome::Failed, detail: String::new() },
    ];
    assert!(matches!(unmount_reply(&mut m, false, &done), Response::Okay(None)));
    assert!(!m.job("test-set").unwrap().is_mounted);
    assert!(!m.job("other").unwrap().is_mounted);
    assert_eq!(m.job("other").unwrap().mount_child, None);
}

#[test]
fn prune_request_and_reply() {
    let mut m = manager();
    match handle_request(&mut m, Request::Prune { set_name: Some("other".to_string()) }, &dirs()) {
        Action::Prune { single, sets } => {
            assert!(single);
            assert_eq!(sets.len(), 1);
            assert_eq!(sets[0].name, "other");
            assert_eq!(sets[0].retention.unwrap().keep_last, Some(5));
        }
        other => panic!("unexpected {:?}", other),
    }
    match handle_request(&mut m, Request::Prune { set_name: None }, &dirs()) {
        Action::Prune { single, sets } => {
            assert!(!single);
            assert_eq!(sets.len(), 2);
        }
        other => panic!("unexpected {:?}", other),
    }
    let r = reply(handle_request(&mut m, Request::Prune { set_name: Some("nope".to_string()) }, &dirs()));
    assert_eq!(error_of(&r.response).0, "UnknownSet");

    let one = vec![PruneReport { name: "other".to_string(), result: Ok(2048) }];
    let out = prune_reply(true, &one);
    match out.response {
        Response::Okay(Some(ResponseData::PruneResult { set_name, reclaimed_bytes })) => {
            assert_eq!(set_name, "other");
            assert_eq!(reclaimed_bytes, 2048);
        }
        other => panic!("Unexpected response to Prune: {:?}", other),
    }
    assert_eq!(out.refresh, vec!["other"]);

    let refused = vec![PruneReport {
        name: "other".to_string(),
        result: Err(EngineError::Policy("Cannot prune".to_string())),
    }];
    let out = prune_reply(true, &refused);
    assert_eq!(error_of(&out.response), ("ResticError".to_string(), "Cannot prune".to_string()));
    assert!(out.refresh.is_empty());

    let all = vec![
        PruneReport { name: "a".to_string(), result: Ok(1) },
        PruneReport { name: "b".to_string(), result: Err(EngineError::Failed("locked".to_string())) },
        PruneReport { name: "c".to_string(), result: Ok(3) },
    ];
    let out = prune_reply(false, &all);
    match out.response {
        Response::Okay(Some(ResponseData::PrunesTriggered { succeeded, failed })) => {
            assert_eq!(succeeded, vec![("a".to_string(), 1), ("c".to_string(), 3)]);
            assert_eq!(failed, vec![("b".to_string(), "locked".to_string())]);
        }
        other => panic!("Unexpected response to Prune: {:?}", other),
    }
    assert_eq!(out.refresh, vec!["a", "c"]);
    match prune_reply(false, &vec![]).response {
        Response::Okay(Some(ResponseData::PrunesTriggered { succeeded, failed })) => {
            assert!(succeeded.is_empty());
            assert!(failed.is_empty());
        }
        other => panic!("Unexpected response to Prune: {:?}", other),
    }
}

#[test]
fn lines_that_are_no_request() {
    assert_eq!(
        error_of(&invalid_request("expected value at line 1 column 1")),
        (
            "InvalidRequest".to_string(),
            "Failed to parse JSON: expected value at line 1 column 1".to_string()
        )
    );
    assert_eq!(
        error_of(&error_response("DaemonBusy", "later".to_string())),
        ("DaemonBusy".to_string(), "later".to_string())
    );
}

#[test]
fn broadcasts_are_written_verbatim() {
    let event = ResponseData::PruneComplete { set_name: "a".to_string(), reclaimed_bytes: 9 };
    match on_broadcast(Broadcast::Event(event)) {
        Delivery::Write(Response::Okay(Some(ResponseData::PruneComplete { set_name, reclaimed_bytes }))) => {
            assert_eq!(set_name, "a");
            assert_eq!(reclaimed_bytes, 9);
        }
        other => panic!("unexpected {:?}", other),
    }
    assert!(matches!(on_broadcast(Broadcast::Lagged(3)), Delivery::Skip));
    assert!(matches!(on_broadcast(Broadcast::Closed), Delivery::Close));
}
