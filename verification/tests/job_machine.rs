use backutil::config::{BackupSet, RetentionPolicy};
use backutil::ipc::ResponseData;
use backutil::job::{
    Directive, Job, PruneOutcome, RunOutcome, Trigger, WorkerPhase, WorkerStep, TICK_INTERVAL_MS,
};
use backutil::types::{BackupResult, JobState, Seconds, Timestamp};

fn sample_set(debounce: Option<u64>, retention: Option<RetentionPolicy>) -> BackupSet {
    BackupSet {
        name: "test".to_string(),
        source: Some("/tmp/src".to_string()),
        sources: None,
        target: "/tmp/repo".to_string(),
        exclude: None,
        debounce_seconds: debounce,
        retention,
    }
}

fn success(snapshot: &str, added: u64) -> BackupResult {
    BackupResult {
        snapshot_id: snapshot.to_string(),
        timestamp: Timestamp { secs: 1_700_000_000, nanos: 5 },
        added_bytes: added,
        duration_secs: Seconds { bits: 4.2f64.to_bits() },
        success: true,
        error_message: None,
    }
}

fn failure(message: Option<&str>) -> BackupResult {
    BackupResult {
        snapshot_id: String::new(),
        timestamp: Timestamp { secs: 1_700_000_000, nanos: 0 },
        added_bytes: 0,
        duration_secs: Seconds::zero(),
        success: false,
        error_message: message.map(|m| m.to_string()),
    }
}

fn is_sleep(step: &WorkerStep) -> bool {
    matches!(step.directive, Directive::Sleep { millis } if millis == TICK_INTERVAL_MS)
}

fn backup_set_of(step: &WorkerStep) -> Option<String> {
    match &step.directive {
        Directive::Backup { set } => Some(set.name.clone()),
        _ => None,
    }
}

#[test]
fn fresh_job_is_idle() {
    let job = Job::new(sample_set(None, None));
    assert_eq!(job.state, JobState::Idle);
    assert_eq!(job.last_change, None);
    assert!(job.last_backup.is_none());
    assert!(!job.is_mounted);
    assert_eq!(job.mount_child, None);
    assert!(!job.immediate_trigger);
    assert_eq!(job.snapshot_count, None);
    assert_eq!(job.total_bytes, None);
    assert!(!job.worker_live);
    assert_eq!(TICK_INTERVAL_MS, 500);
}

#[test]
fn debounce_and_run() {
    let mut job = Job::new(sample_set(Some(1), None));
    assert!(job.file_change(10_000, 60));
    assert_eq!(job.state, JobState::Debouncing { remaining_secs: 1 });
    assert!(job.worker_live);

    let step = job.worker_begin(10_000, 60, false);
    assert!(is_sleep(&step));
    assert_eq!(step.phase, WorkerPhase::Debounce { start_ms: 10_000, window_secs: 1 });
    assert_eq!(job.state, JobState::Debouncing { remaining_secs: 1 });
    assert!(step.events.is_empty());

    let step = job.worker_tick(10_000, 1, 10_500, false);
    assert!(is_sleep(&step));
    assert_eq!(job.state, JobState::Debouncing { remaining_secs: 0 });

    let step = job.worker_tick(10_000, 1, 10_999, false);
    assert!(is_sleep(&step));

    let step = job.worker_tick(10_000, 1, 11_000, false);
    assert_eq!(backup_set_of(&step), Some("test".to_string()));
    assert_eq!(step.phase, WorkerPhase::Run { started_ms: 11_000 });
    assert_eq!(job.state, JobState::Running);

    let step = job.run_finished(
        11_000,
        RunOutcome::Completed(success("a1b2c3d4", 1024)),
        12_000,
        60,
        None,
        false,
    );
    assert!(matches!(step.directive, Directive::Exit));
    assert_eq!(step.phase, WorkerPhase::Done);
    assert!(step.refresh_metrics);
    assert!(step.notification.is_none());
    assert_eq!(step.events.len(), 1);
    match &step.events[0] {
        ResponseData::BackupComplete { set_name, snapshot_id, added_bytes, duration_secs } => {
            assert_eq!(set_name, "test");
            assert_eq!(snapshot_id, "a1b2c3d4");
            assert_eq!(*added_bytes, 1024);
            assert_eq!(f64::from_bits(duration_secs.bits), 4.2);
        }
        other => panic!("unexpected event {:?}", other),
    }
    assert_eq!(job.state, JobState::Idle);
    assert!(!job.worker_live);
    assert!(job.last_backup.as_ref().unwrap().success);
}

#[test]
fn manual_trigger_over_long_debounce() {
    let mut job = Job::new(sample_set(Some(60), None));
    assert_eq!(job.manual_trigger(), Trigger::Accepted { spawn: true });
    assert_eq!(job.state, JobState::Running);
    assert!(job.worker_live);

    let step = job.worker_begin(100, 60, false);
    assert_eq!(backup_set_of(&step), Some("test".to_string()));
    assert_eq!(step.phase, WorkerPhase::Run { started_ms: 100 });

    assert_eq!(job.manual_trigger(), Trigger::Refused);
    assert_eq!(job.state, JobState::Running);

    let step =
        job.run_finished(100, RunOutcome::Completed(success("s1", 1)), 900, 60, None, false);
    assert!(matches!(step.directive, Directive::Exit));
    assert_eq!(job.state, JobState::Idle);
}

#[test]
fn change_just_before_expiry_restarts_the_window() {
    let mut job = Job::new(sample_set(Some(2), None));
    assert!(job.file_change(0, 60));
    let step = job.worker_begin(0, 60, false);
    assert_eq!(step.phase, WorkerPhase::Debounce { start_ms: 0, window_secs: 2 });

    assert!(!job.file_change(1_999, 60));
    assert_eq!(job.last_change, Some(1_999));

    let step = job.worker_tick(0, 2, 2_000, false);
    assert!(is_sleep(&step));
    assert_eq!(step.phase, WorkerPhase::Debounce { start_ms: 1_999, window_secs: 2 });
    assert_eq!(job.state, JobState::Debouncing { remaining_secs: 1 });

    let step = job.worker_tick(1_999, 2, 3_998, false);
    assert!(is_sleep(&step));
    assert_eq!(job.state, JobState::Debouncing { remaining_secs: 0 });

    let step = job.worker_tick(1_999, 2, 3_999, false);
    assert_eq!(backup_set_of(&step), Some("test".to_string()));
    assert_eq!(job.state, JobState::Running);
}

#[test]
fn trigger_while_debouncing_runs_at_next_tick() {
    let mut job = Job::new(sample_set(Some(60), None));
    assert!(job.file_change(0, 60));
    let step = job.worker_begin(0, 60, false);
    assert!(is_sleep(&step));
    assert_eq!(job.state, JobState::Debouncing { remaining_secs: 60 });

    assert_eq!(job.manual_trigger(), Trigger::Accepted { spawn: false });
    assert!(job.immediate_trigger);
    assert!(matches!(job.state, JobState::Debouncing { .. }));

    let step = job.worker_tick(0, 60, 500, false);
    assert_eq!(backup_set_of(&step), Some("test".to_string()));
    assert_eq!(step.phase, WorkerPhase::Run { started_ms: 500 });
    assert_eq!(job.state, JobState::Running);
    assert!(!job.immediate_trigger);
}

#[test]
fn remaining_seconds_round_down() {
    let mut job = Job::new(sample_set(Some(10), None));
    job.file_change(1_000, 60);
    job.worker_tick(1_000, 10, 1_001, false);
    assert_eq!(job.state, JobState::Debouncing { remaining_secs: 9 });
    job.worker_tick(1_000, 10, 2_000, false);
    assert_eq!(job.state, JobState::Debouncing { remaining_secs: 9 });
    job.worker_tick(1_000, 10, 10_999, false);
    assert_eq!(job.state, JobState::Debouncing { remaining_secs: 0 });
    // A clock that reads before the start counts as no time passed.
    job.worker_tick(1_000, 10, 0, false);
    assert_eq!(job.state, JobState::Debouncing { remaining_secs: 10 });
}

#[test]
fn global_debounce_applies_without_override() {
    let mut job = Job::new(sample_set(None, None));
    job.file_change(0, 7);
    assert_eq!(job.state, JobState::Debouncing { remaining_secs: 7 });
    let step = job.worker_begin(0, 7, false);
    assert_eq!(step.phase, WorkerPhase::Debounce { start_ms: 0, window_secs: 7 });
}

#[test]
fn zero_debounce_runs_at_first_step() {
    let mut job = Job::new(sample_set(Some(0), None));
    job.file_change(5, 60);
    let step = job.worker_begin(5, 60, false);
    assert_eq!(backup_set_of(&step), Some("test".to_string()));
    assert_eq!(job.state, JobState::Running);
}

#[test]
fn failed_backup_sets_error_and_notifies() {
    let mut job = Job::new(sample_set(Some(1), None));
    job.manual_trigger();
    job.worker_begin(0, 60, false);
    let step =
        job.run_finished(0, RunOutcome::Completed(failure(Some("boom"))), 10, 60, None, false);
    assert_eq!(job.state, JobState::Error);
    assert!(!job.worker_live);
    assert!(matches!(step.directive, Directive::Exit));
    assert!(!step.refresh_metrics);
    assert_eq!(step.notification.as_deref(), Some("Backup for set 'test' failed: boom"));
    assert_eq!(step.events.len(), 1);
    match &step.events[0] {
        ResponseData::BackupFailed { set_name, error } => {
            assert_eq!(set_name, "test");
            assert_eq!(error, "boom");
        }
        other => panic!("unexpected event {:?}", other),
    }
    assert!(!job.last_backup.as_ref().unwrap().success);

    // Error is no lock: a change starts the debounce again.
    assert!(job.file_change(100, 60));
    assert_eq!(job.state, JobState::Debouncing { remaining_secs: 1 });
}

#[test]
fn failed_backup_without_message_is_unknown_error() {
    let mut job = Job::new(sample_set(Some(1), None));
    job.manual_trigger();
    let step = job.run_finished(0, RunOutcome::Completed(failure(None)), 10, 60, None, true);
    assert!(step.notification.is_none());
    match &step.events[0] {
        ResponseData::BackupFailed { error, .. } => assert_eq!(error, "Unknown error"),
        other => panic!("unexpected event {:?}", other),
    }
}

#[test]
fn aborted_backup_sets_error() {
    let mut job = Job::new(sample_set(Some(1), None));
    job.manual_trigger();
    let before = job.last_backup.is_none();
    let step =
        job.run_finished(0, RunOutcome::Aborted("bad json".to_string()), 10, 60, None, false);
    assert_eq!(job.state, JobState::Error);
    assert!(!job.worker_live);
    assert_eq!(job.last_backup.is_none(), before);
    assert_eq!(
        step.notification.as_deref(),
        Some("Internal error backing up set 'test': bad json")
    );
    match &step.events[0] {
        ResponseData::BackupFailed { set_name, error } => {
            assert_eq!(set_name, "test");
            assert_eq!(error, "bad json");
        }
        other => panic!("unexpected event {:?}", other),
    }
    // A trigger brings the job back to normal flow.
    assert_eq!(job.manual_trigger(), Trigger::Accepted { spawn: true });
}

#[test]
fn change_during_run_debounces_again() {
    let mut job = Job::new(sample_set(Some(5), None));
    job.manual_trigger();
    job.worker_begin(1_000, 60, false);
    assert!(!job.file_change(1_500, 60));
    assert_eq!(job.state, JobState::Running);

    let step =
        job.run_finished(1_000, RunOutcome::Completed(success("s", 1)), 3_000, 60, None, false);
    assert!(is_sleep(&step));
    assert_eq!(step.phase, WorkerPhase::Debounce { start_ms: 1_500, window_secs: 5 });
    assert_eq!(job.state, JobState::Debouncing { remaining_secs: 3 });
    assert!(job.worker_live);
    assert!(step.refresh_metrics);
    assert_eq!(step.events.len(), 1);
    assert!(matches!(step.events[0], ResponseData::BackupComplete { .. }));
}

#[test]
fn change_before_run_start_does_not_debounce_again() {
    let mut job = Job::new(sample_set(Some(5), None));
    job.file_change(500, 60);
    job.manual_trigger();
    job.worker_tick(500, 5, 1_000, false);
    let step =
        job.run_finished(1_000, RunOutcome::Completed(success("s", 1)), 3_000, 60, None, false);
    assert!(matches!(step.directive, Directive::Exit));
    assert_eq!(job.state, JobState::Idle);
}

#[test]
fn auto_prune_after_backup() {
    let policy = RetentionPolicy { keep_last: Some(2), ..RetentionPolicy::default() };
    let mut job = Job::new(sample_set(Some(1), Some(policy)));
    let mut completes = 0;
    let mut prunes = 0;
    for round in 0..3u64 {
        let t = round * 10_000;
        job.file_change(t, 60);
        job.worker_begin(t, 60, false);
        let step = job.worker_tick(t, 1, t + 1_000, false);
        assert!(matches!(step.directive, Directive::Backup { .. }));
        let step = job.run_finished(
            t + 1_000,
            RunOutcome::Completed(success("snap", 10)),
            t + 2_000,
            60,
            None,
            false,
        );
        for e in &step.events {
            if matches!(e, ResponseData::BackupComplete { .. }) {
                completes += 1;
            }
        }
        match &step.directive {
            Directive::Prune { set } => assert_eq!(set.retention, Some(policy)),
            other => panic!("expected a prune, got {:?}", other),
        }
        assert_eq!(step.phase, WorkerPhase::Prune { started_ms: t + 1_000 });
        assert_eq!(job.state, JobState::Running);
        assert!(job.worker_live);
        let step = job.prune_finished(t + 1_000, PruneOutcome::Reclaimed(77), t + 3_000, 60, false);
        for e in &step.events {
            match e {
                ResponseData::PruneComplete { set_name, reclaimed_bytes } => {
                    assert_eq!(set_name, "test");
                    assert_eq!(*reclaimed_bytes, 77);
                    prunes += 1;
                }
                other => panic!("unexpected event {:?}", other),
            }
        }
        assert!(step.refresh_metrics);
        assert!(matches!(step.directive, Directive::Exit));
        assert_eq!(job.state, JobState::Idle);
        assert!(!job.worker_live);
    }
    assert_eq!(completes, 3);
    assert_eq!(prunes, 3);
}

#[test]
fn auto_prune_uses_global_retention() {
    let global = Some(RetentionPolicy { keep_daily: Some(7), ..RetentionPolicy::default() });
    let mut job = Job::new(sample_set(Some(1), None));
    job.manual_trigger();
    let step = job.run_finished(0, RunOutcome::Completed(success("s", 1)), 5, 60, global, false);
    match &step.directive {
        Directive::Prune { set } => assert_eq!(set.retention, global),
        other => panic!("expected a prune, got {:?}", other),
    }
    assert_eq!(job.auto_prune_set(global).unwrap().retention, global);
    assert!(job.auto_prune_set(None).is_none());
    assert!(job.auto_prune_set(Some(RetentionPolicy::default())).is_none());
}

#[test]
fn failed_prune_emits_nothing_and_settles() {
    let policy = RetentionPolicy { keep_last: Some(2), ..RetentionPolicy::default() };
    let mut job = Job::new(sample_set(Some(1), Some(policy)));
    job.manual_trigger();
    job.run_finished(0, RunOutcome::Completed(success("s", 1)), 5, 60, None, false);
    let step = job.prune_finished(0, PruneOutcome::Failed("locked".to_string()), 9, 60, false);
    assert!(step.events.is_empty());
    assert!(matches!(step.directive, Directive::Exit));
    assert_eq!(job.state, JobState::Idle);
}

#[test]
fn cancelled_worker_ends() {
    let mut job = Job::new(sample_set(Some(60), None));
    job.file_change(0, 60);
    let step = job.worker_begin(0, 60, true);
    assert!(matches!(step.directive, Directive::Exit));
    assert_eq!(step.phase, WorkerPhase::Done);
    assert!(!job.worker_live);

    let mut job = Job::new(sample_set(Some(60), None));
    job.file_change(0, 60);
    job.worker_begin(0, 60, false);
    let step = job.worker_tick(0, 60, 500, true);
    assert!(matches!(step.directive, Directive::Exit));
    assert!(!job.worker_live);
    assert!(step.events.is_empty());
}

#[test]
fn only_one_worker_is_ever_asked_for() {
    let mut job = Job::new(sample_set(Some(1), None));
    let mut live = 0;
    if job.file_change(0, 60) {
        live += 1;
    }
    if job.file_change(1, 60) {
        live += 1;
    }
    if let Trigger::Accepted { spawn: true } = job.manual_trigger() {
        live += 1;
    }
    assert_eq!(live, 1);
    job.worker_begin(2, 60, false);
    let step = job.worker_tick(1, 1, 600, false);
    assert!(matches!(step.directive, Directive::Backup { .. }));
    if job.file_change(700, 60) {
        live += 1;
    }
    assert_eq!(live, 1);
    let step = job.run_finished(600, RunOutcome::Completed(failure(Some("x"))), 800, 60, None, false);
    if matches!(step.directive, Directive::Exit) {
        live -= 1;
    }
    assert_eq!(live, 0);
    assert!(!job.worker_live);
    if job.file_change(900, 60) {
        live += 1;
    }
    assert_eq!(live, 1);
}
