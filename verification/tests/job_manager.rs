use backutil::config::{BackupSet, Config, GlobalConfig, RetentionPolicy};
use backutil::job::{Directive, PruneOutcome, RunOutcome, WorkerPhase};
use backutil::manager::{
    JobManager, ManagerError, MountObservation, MountPlan, SizeQuery, SnapshotQuery,
};
use backutil::mount::{child_action, ChildAction, ChildProbe, HelperOutcome};
use backutil::types::{BackupResult, JobState, Seconds, SnapshotInfo, Timestamp};

fn set(name: &str, target: &str) -> BackupSet {
    BackupSet {
        name: name.to_string(),
        source: Some(format!("/src/{}", name)),
        sources: None,
        target: target.to_string(),
        exclude: None,
        debounce_seconds: None,
        retention: None,
    }
}

fn config(sets: Vec<BackupSet>) -> Config {
    Config { global: GlobalConfig { debounce_seconds: 60, retention: None }, backup_sets: sets }
}

fn snapshot(short: &str, secs: i64) -> SnapshotInfo {
    SnapshotInfo {
        id: format!("{}{}", short, short),
        short_id: short.to_string(),
        timestamp: Timestamp { secs, nanos: 0 },
        paths: vec!["/src".to_string()],
        tags: vec![],
        total_bytes: None,
    }
}

fn observed(name: &str, child: ChildProbe, listed: bool) -> MountObservation {
    MountObservation { name: name.to_string(), child, listed }
}

#[test]
fn new_manager_has_a_fresh_job_per_set() {
    let m = JobManager::new(&config(vec![set("a", "/r1"), set("b", "/r2")]));
    assert_eq!(m.len(), 2);
    assert_eq!(m.names(), vec!["a", "b"]);
    assert_eq!(m.global_debounce(), 60);
    assert_eq!(m.global_retention(), None);
    let job = m.job("b").unwrap();
    assert_eq!(job.state, JobState::Idle);
    assert_eq!(job.set.target, "/r2");
    assert!(!job.worker_live);
    assert!(m.job("c").is_none());
}

#[test]
fn duplicate_sets_leave_one_job_with_the_last_configuration() {
    let m = JobManager::new(&config(vec![set("a", "/r1"), set("b", "/r2"), set("a", "/r3")]));
    assert_eq!(m.names(), vec!["a", "b"]);
    assert_eq!(m.job("a").unwrap().set.target, "/r3");
}

#[test]
fn unknown_sets_are_refused() {
    let mut m = JobManager::new(&config(vec![set("a", "/r1")]));
    match m.handle_file_change("zz", 5) {
        Err(e @ ManagerError::UnknownSet(_)) => {
            assert_eq!(e.message(), "Unknown backup set: zz")
        }
        other => panic!("unexpected {:?}", other),
    }
    assert!(matches!(m.trigger_backup("zz"), Err(ManagerError::UnknownSet(_))));
    assert!(matches!(m.mount("zz"), Err(ManagerError::UnknownSet(_))));
    assert!(matches!(m.mount_started("zz", 1), Err(ManagerError::UnknownSet(_))));
    assert!(matches!(m.unmount(Some("zz")), Err(ManagerError::UnknownSet(_))));
    assert!(matches!(m.prune(Some("zz")), Err(ManagerError::UnknownSet(_))));
    assert!(m.target_of("zz").is_none());
    assert!(m.worker_begin("zz", 0, false).is_none());
    assert!(m.worker_tick("zz", 0, 1, 0, false).is_none());
    assert!(m.run_finished("zz", 0, RunOutcome::Aborted("x".to_string()), 0, false).is_none());
    assert!(m.prune_finished("zz", 0, PruneOutcome::Reclaimed(1), 0, false).is_none());
    assert_eq!(m.job("a").unwrap().state, JobState::Idle);
}

#[test]
fn file_change_and_trigger_by_name() {
    let mut m = JobManager::new(&config(vec![set("a", "/r1"), set("b", "/r2")]));
    assert_eq!(m.handle_file_change("b", 100).unwrap(), true);
    assert_eq!(m.job("b").unwrap().state, JobState::Debouncing { remaining_secs: 60 });
    assert_eq!(m.job("a").unwrap().state, JobState::Idle);
    assert_eq!(m.handle_file_change("b", 200).unwrap(), false);
    assert_eq!(m.job("b").unwrap().last_change, Some(200));
    assert_eq!(m.trigger_backup("b").unwrap(), false);
    assert!(m.job("b").unwrap().immediate_trigger);
    assert_eq!(m.trigger_backup("a").unwrap(), true);
    assert_eq!(m.job("a").unwrap().state, JobState::Running);
    match m.trigger_backup("a") {
        Err(e @ ManagerError::AlreadyRunning(_)) => {
            assert_eq!(e.message(), "Backup for set a is already running")
        }
        other => panic!("unexpected {:?}", other),
    }
}

#[test]
fn worker_steps_by_name() {
    let mut cfg = config(vec![set("a", "/r1")]);
    cfg.global.debounce_seconds = 1;
    cfg.global.retention = Some(RetentionPolicy { keep_last: Some(2), ..RetentionPolicy::default() });
    let mut m = JobManager::new(&cfg);
    assert!(m.handle_file_change("a", 0).unwrap());
    let step = m.worker_begin("a", 0, false).unwrap();
    assert_eq!(step.phase, WorkerPhase::Debounce { start_ms: 0, window_secs: 1 });
    let step = m.worker_tick("a", 0, 1, 1_000, false).unwrap();
    assert!(matches!(step.directive, Directive::Backup { .. }));
    let result = BackupResult {
        snapshot_id: "s1".to_string(),
        timestamp: Timestamp { secs: 1, nanos: 0 },
        added_bytes: 5,
        duration_secs: Seconds::zero(),
        success: true,
        error_message: None,
    };
    let step = m.run_finished("a", 1_000, RunOutcome::Completed(result), 2_000, false).unwrap();
    match &step.directive {
        Directive::Prune { set } => assert_eq!(set.retention, cfg.global.retention),
        other => panic!("unexpected {:?}", other),
    }
    let step = m.prune_finished("a", 1_000, PruneOutcome::Reclaimed(9), 3_000, false).unwrap();
    assert!(matches!(step.directive, Directive::Exit));
    let job = m.job("a").unwrap();
    assert_eq!(job.state, JobState::Idle);
    assert!(!job.worker_live);
    assert_eq!(job.last_backup.unwrap().snapshot_id, "s1");
}

#[test]
fn reconfigure_removal() {
    let mut m = JobManager::new(&config(vec![set("A", "/ra"), set("B", "/rb")]));
    assert!(matches!(m.mount("B"), Ok(MountPlan::Start { target }) if target == "/rb"));
    m.mount_started("B", 4242).unwrap();
    assert!(m.job("B").unwrap().is_mounted);
    assert!(matches!(m.mount("B"), Ok(MountPlan::AlreadyMounted)));

    let plan = m.sync_config(&config(vec![set("A", "/ra")]));
    assert_eq!(m.names(), vec!["A"]);
    assert_eq!(plan.refresh, vec!["A"]);
    assert_eq!(plan.unmount.len(), 1);
    assert_eq!(plan.unmount[0].name, "B");
    assert_eq!(plan.unmount[0].mount_child, Some(4242));
    assert!(!plan.unmount[0].backup_running);
    assert_eq!(
        child_action(HelperOutcome::Succeeded, plan.unmount[0].mount_child),
        ChildAction::AwaitThenKill { child: 4242, grace_ms: 2000 }
    );
    let statuses = m.get_status(&vec![]);
    assert_eq!(statuses.len(), 1);
    assert_eq!(statuses[0].name, "A");
    assert!(matches!(m.mount("B"), Err(ManagerError::UnknownSet(_))));
}

#[test]
fn sync_keeps_state_and_resets_metrics_on_target_change() {
    let mut m = JobManager::new(&config(vec![set("a", "/r1"), set("b", "/r2"), set("c", "/r3")]));
    let listing = SnapshotQuery::Listed(vec![snapshot("11111111", 10)]);
    for name in ["a", "b", "c"] {
        m.apply_refresh(name, &listing, SizeQuery::Measured(Some(99)), false);
        m.handle_file_change(name, 7).unwrap();
    }
    let mut a = set("a", "/r1");
    a.debounce_seconds = Some(3);
    let mut cfg = config(vec![set("d", "/r4"), a, set("b", "/moved")]);
    cfg.global.debounce_seconds = 11;
    cfg.global.retention = Some(RetentionPolicy { keep_weekly: Some(1), ..RetentionPolicy::default() });
    let plan = m.sync_config(&cfg);
    assert!(plan.unmount.is_empty());
    assert_eq!(plan.refresh, vec!["d", "a", "b"]);
    assert_eq!(m.names(), vec!["a", "b", "d"]);
    assert_eq!(m.global_debounce(), 11);
    assert_eq!(m.global_retention(), cfg.global.retention);

    let a = m.job("a").unwrap();
    assert_eq!(a.set.debounce_seconds, Some(3));
    assert_eq!(a.snapshot_count, Some(1));
    assert_eq!(a.total_bytes, Some(99));
    assert!(a.last_backup.is_some());
    assert!(matches!(a.state, JobState::Debouncing { .. }));
    assert!(a.worker_live);

    let b = m.job("b").unwrap();
    assert_eq!(b.set.target, "/moved");
    assert_eq!(b.snapshot_count, None);
    assert_eq!(b.total_bytes, None);
    assert!(b.last_backup.is_none());
    assert!(matches!(b.state, JobState::Debouncing { .. }));

    let d = m.job("d").unwrap();
    assert_eq!(d.state, JobState::Idle);
    assert!(!d.worker_live);
}

#[test]
fn status_reports_every_job() {
    let mut cfg = config(vec![set("a", "/r1"), set("b", "/r2")]);
    cfg.backup_sets[1].sources = Some(vec!["/more".to_string()]);
    let mut m = JobManager::new(&cfg);
    m.handle_file_change("b", 5).unwrap();
    let statuses = m.get_status(&vec![]);
    assert_eq!(statuses.len(), 2);
    assert_eq!(statuses[0].name, "a");
    assert_eq!(statuses[0].state, JobState::Idle);
    assert_eq!(statuses[0].source_paths, vec!["/src/a"]);
    assert_eq!(statuses[0].target, "/r1");
    assert!(!statuses[0].is_mounted);
    assert_eq!(statuses[0].snapshot_count, None);
    assert_eq!(statuses[0].total_bytes, None);
    assert!(statuses[0].last_backup.is_none());
    assert_eq!(statuses[1].name, "b");
    assert_eq!(statuses[1].state, JobState::Debouncing { remaining_secs: 60 });
    assert_eq!(statuses[1].source_paths, vec!["/src/b", "/more"]);
}

#[test]
fn mounted_iff_listed_or_child_alive() {
    let mut m = JobManager::new(&config(vec![set("a", "/r1")]));
    // Orphan found in the mount table.
    let s = m.get_status(&vec![observed("a", ChildProbe::Unknown, true)]);
    assert!(s[0].is_mounted);
    assert_eq!(m.job("a").unwrap().mount_child, None);
    // Orphan gone from the mount table.
    let s = m.get_status(&vec![observed("a", ChildProbe::Unknown, false)]);
    assert!(!s[0].is_mounted);

    m.mount_started("a", 77).unwrap();
    // Child alive, table not yet listing the path.
    let s = m.get_status(&vec![observed("a", ChildProbe::Running, false)]);
    assert!(s[0].is_mounted);
    assert_eq!(m.job("a").unwrap().mount_child, Some(77));
    // The look at the child failed: nothing changes.
    let s = m.get_status(&vec![observed("a", ChildProbe::Unknown, false)]);
    assert!(s[0].is_mounted);
    assert_eq!(m.job("a").unwrap().mount_child, Some(77));
    // Child exited, mount still listed: orphaned but mounted.
    let s = m.get_status(&vec![observed("a", ChildProbe::Exited, true)]);
    assert!(s[0].is_mounted);
    assert_eq!(m.job("a").unwrap().mount_child, None);
    // Child exited and not listed.
    m.mount_started("a", 78).unwrap();
    let s = m.get_status(&vec![observed("a", ChildProbe::Exited, false)]);
    assert!(!s[0].is_mounted);
    assert_eq!(m.job("a").unwrap().mount_child, None);
    // No observation: nothing changes.
    m.mount_started("a", 79).unwrap();
    let s = m.get_status(&vec![observed("other", ChildProbe::Exited, false)]);
    assert!(s[0].is_mounted);
    // The first observation of a name counts.
    let s = m.get_status(&vec![
        observed("a", ChildProbe::Running, false),
        observed("a", ChildProbe::Exited, false),
    ]);
    assert!(s[0].is_mounted);
}

#[test]
fn unmount_of_an_orphan_clears_the_mount() {
    let mut m = JobManager::new(&config(vec![set("a", "/r1"), set("b", "/r2")]));
    m.get_status(&vec![observed("a", ChildProbe::Unknown, true)]);
    assert!(m.job("a").unwrap().is_mounted);
    let plan = m.unmount(Some("a")).unwrap();
    assert_eq!(plan.len(), 1);
    assert_eq!(plan[0].name, "a");
    assert_eq!(plan[0].mount_child, None);
    assert_eq!(child_action(HelperOutcome::Succeeded, None), ChildAction::Nothing);
    m.unmount_finished("a", HelperOutcome::Succeeded);
    assert!(!m.job("a").unwrap().is_mounted);
    assert!(m.unmount(Some("a")).unwrap().is_empty());
    assert!(m.unmount(Some("b")).unwrap().is_empty());
}

#[test]
fn unmount_plans_and_outcomes() {
    let mut m = JobManager::new(&config(vec![set("a", "/r1"), set("b", "/r2"), set("c", "/r3")]));
    m.mount_started("a", 1).unwrap();
    m.mount_started("c", 3).unwrap();
    m.trigger_backup("c").unwrap();
    let plan = m.unmount(None).unwrap();
    assert_eq!(plan.len(), 2);
    assert_eq!((plan[0].name.as_str(), plan[0].mount_child, plan[0].backup_running), ("a", Some(1), false));
    assert_eq!((plan[1].name.as_str(), plan[1].mount_child, plan[1].backup_running), ("c", Some(3), true));

    assert_eq!(child_action(HelperOutcome::Failed, Some(1)), ChildAction::Kill { child: 1 });
    assert_eq!(child_action(HelperOutcome::Failed, None), ChildAction::Nothing);
    assert_eq!(child_action(HelperOutcome::Interrupted, Some(1)), ChildAction::Nothing);

    m.unmount_finished("a", HelperOutcome::Interrupted);
    assert!(m.job("a").unwrap().is_mounted);
    assert_eq!(m.job("a").unwrap().mount_child, Some(1));
    m.unmount_finished("a", HelperOutcome::Failed);
    assert!(!m.job("a").unwrap().is_mounted);
    assert_eq!(m.job("a").unwrap().mount_child, None);
    m.unmount_finished("gone", HelperOutcome::Succeeded);
    assert!(m.job("c").unwrap().is_mounted);
    assert_eq!(m.job("c").unwrap().state, JobState::Running);
}

#[test]
fn prune_plan_uses_effective_retention() {
    let own = RetentionPolicy { keep_last: Some(1), ..RetentionPolicy::default() };
    let global = RetentionPolicy { keep_monthly: Some(6), ..RetentionPolicy::default() };
    let mut cfg = config(vec![set("a", "/r1"), set("b", "/r2")]);
    cfg.backup_sets[0].retention = Some(own);
    cfg.global.retention = Some(global);
    let m = JobManager::new(&cfg);
    let all = m.prune(None).unwrap();
    assert_eq!(all.len(), 2);
    assert_eq!(all[0].retention, Some(own));
    assert_eq!(all[1].retention, Some(global));
    let one = m.prune(Some("b")).unwrap();
    assert_eq!(one.len(), 1);
    assert_eq!(one[0].name, "b");
    assert_eq!(one[0].retention, Some(global));
    let none = JobManager::new(&config(vec![set("a", "/r1")]));
    assert_eq!(none.prune(Some("a")).unwrap()[0].retention, None);
}

#[test]
fn related_sets_share_a_target() {
    let m = JobManager::new(&config(vec![
        set("a", "/shared"),
        set("b", "/own"),
        set("c", "/shared"),
        set("d", "/shared"),
    ]));
    assert_eq!(m.related_sets("/shared", "a"), vec!["c", "d"]);
    assert_eq!(m.related_sets("/shared", "d"), vec!["a", "c"]);
    assert_eq!(m.related_sets("/own", "b"), Vec::<String>::new());
    assert_eq!(m.related_sets("/own", "x"), vec!["b"]);
    assert_eq!(m.target_of("c").as_deref(), Some("/shared"));
}

#[test]
fn refresh_takes_in_snapshots_and_size() {
    let mut m = JobManager::new(&config(vec![set("a", "/r1")]));
    m.trigger_backup("a").unwrap();
    let result = BackupResult {
        snapshot_id: "22222222".to_string(),
        timestamp: Timestamp { secs: 50, nanos: 1 },
        added_bytes: 4096,
        duration_secs: Seconds { bits: 2.5f64.to_bits() },
        success: true,
        error_message: None,
    };
    m.run_finished("a", 0, RunOutcome::Completed(result), 10, false).unwrap();

    // The newest snapshot is the one just written: its metrics are kept.
    let listing = SnapshotQuery::Listed(vec![snapshot("11111111", 10), snapshot("22222222", 20)]);
    m.apply_refresh("a", &listing, SizeQuery::Measured(Some(14)), false);
    let job = m.job("a").unwrap();
    assert_eq!(job.snapshot_count, Some(2));
    assert_eq!(job.total_bytes, Some(14));
    let last = job.last_backup.unwrap();
    assert_eq!(last.snapshot_id, "22222222");
    assert_eq!(last.timestamp, Timestamp { secs: 20, nanos: 0 });
    assert_eq!(last.added_bytes, 4096);
    assert_eq!(last.duration_secs, Seconds { bits: 2.5f64.to_bits() });
    assert!(last.success);
    assert_eq!(last.error_message, None);

    // Another snapshot is newest: nothing is known of its run.
    let listing = SnapshotQuery::Listed(vec![snapshot("22222222", 20), snapshot("33333333", 30)]);
    m.apply_refresh("a", &listing, SizeQuery::Failed, false);
    let job = m.job("a").unwrap();
    assert_eq!(job.total_bytes, Some(14));
    let last = job.last_backup.unwrap();
    assert_eq!(last.snapshot_id, "33333333");
    assert_eq!(last.added_bytes, 0);
    assert_eq!(last.duration_secs, Seconds::zero());

    // A failed query that is not about a missing repository changes nothing.
    m.apply_refresh("a", &SnapshotQuery::Failed("Restic error: timeout".to_string()), SizeQuery::Measured(None), false);
    let job = m.job("a").unwrap();
    assert_eq!(job.snapshot_count, Some(2));
    assert!(job.last_backup.is_some());
    assert_eq!(job.total_bytes, None);

    // A missing repository has no snapshots.
    m.apply_refresh(
        "a",
        &SnapshotQuery::Failed("Restic error: Fatal: repository does not exist".to_string()),
        SizeQuery::Failed,
        false,
    );
    let job = m.job("a").unwrap();
    assert_eq!(job.snapshot_count, Some(0));
    assert!(job.last_backup.is_none());

    // An empty listing has no last backup.
    m.apply_refresh("a", &SnapshotQuery::Listed(vec![snapshot("1", 1)]), SizeQuery::Failed, false);
    m.apply_refresh("a", &SnapshotQuery::Listed(vec![]), SizeQuery::Failed, true);
    let job = m.job("a").unwrap();
    assert_eq!(job.snapshot_count, Some(0));
    assert!(job.last_backup.is_none());
    assert!(job.is_mounted);

    m.apply_refresh("gone", &SnapshotQuery::Listed(vec![]), SizeQuery::Failed, true);
    assert_eq!(m.len(), 1);
}

#[test]
fn refresh_squares_the_mount_with_the_table() {
    let mut m = JobManager::new(&config(vec![set("a", "/r1")]));
    let nothing = SnapshotQuery::Failed("x".to_string());
    m.apply_refresh("a", &nothing, SizeQuery::Failed, true);
    assert!(m.job("a").unwrap().is_mounted);
    m.apply_refresh("a", &nothing, SizeQuery::Failed, false);
    assert!(!m.job("a").unwrap().is_mounted);
    m.mount_started("a", 5).unwrap();
    m.apply_refresh("a", &nothing, SizeQuery::Failed, false);
    assert!(m.job("a").unwrap().is_mounted);
    assert_eq!(m.job("a").unwrap().mount_child, Some(5));
}

#[test]
fn trigger_all_reports_each_set() {
    let mut m = JobManager::new(&config(vec![set("a", "/r1"), set("b", "/r2"), set("c", "/r3")]));
    m.trigger_backup("b").unwrap();
    m.handle_file_change("c", 1).unwrap();
    let report = m.trigger_all();
    assert_eq!(report.started, vec!["a", "c"]);
    assert_eq!(
        report.failed,
        vec![("b".to_string(), "Backup for set b is already running".to_string())]
    );
    assert_eq!(report.spawn, vec!["a"]);
    assert_eq!(m.job("a").unwrap().state, JobState::Running);
    assert!(m.job("c").unwrap().immediate_trigger);
}
