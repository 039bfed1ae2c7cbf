use backutil::config::{BackupSet, Config, ConfigError, GlobalConfig};
use backutil::daemon::{
    claim_pid_file, on_event, owns_pid_file, parse_pid, refusal_message, reload, Claim,
    DaemonEvent, LoopStep, Reload,
};
use backutil::manager::JobManager;
use backutil::mount::{child_action, ChildAction, HelperOutcome, MOUNT_GRACEFUL_EXIT_TIMEOUT_MS, MOUNT_STARTUP_CHECK_MS};
use backutil::watcher::WatcherEvent;

fn set(name: &str, exclude: Option<Vec<&str>>) -> BackupSet {
    BackupSet {
        name: name.to_string(),
        source: Some(format!("/src/{}", name)),
        sources: None,
        target: format!("/repo/{}", name),
        exclude: exclude.map(|v| v.into_iter().map(|s| s.to_string()).collect()),
        debounce_seconds: None,
        retention: None,
    }
}

fn config(sets: Vec<BackupSet>) -> Config {
    Config { global: GlobalConfig::default(), backup_sets: sets }
}

#[test]
fn pid_file_management() {
    let own = 4321u32;
    match claim_pid_file(None, false, own) {
        Claim::Proceed { remove_stale, content } => {
            assert!(!remove_stale);
            assert_eq!(content, own.to_string());
            assert!(owns_pid_file(Some(&content), own));
        }
        other => panic!("unexpected {:?}", other),
    }
    assert!(!owns_pid_file(None, own));
}

#[test]
fn pid_files_are_parsed_like_integers() {
    for s in ["1", " 42\n", "+7", "-1", "0", "2147483647", "-2147483648", "2147483648",
        "-2147483649", "", "  ", "12a", "+", "-", "1 2", "0x10", "99999999999999999999999", "007"]
    {
        assert_eq!(parse_pid(s), s.trim().parse::<i32>().ok(), "{:?}", s);
    }
}

#[test]
fn live_pid_refuses_start() {
    match claim_pid_file(Some("1234\n"), true, 99) {
        Claim::AlreadyRunning { pid } => {
            assert_eq!(pid, 1234);
            assert_eq!(refusal_message(pid), "Daemon is already running with PID 1234");
        }
        other => panic!("unexpected {:?}", other),
    }
    assert_eq!(refusal_message(-5), "Daemon is already running with PID -5");
    assert_eq!(refusal_message(i32::MIN), "Daemon is already running with PID -2147483648");
    assert_eq!(refusal_message(0), "Daemon is already running with PID 0");
}

#[test]
fn stale_pid_is_removed_and_claimed() {
    match claim_pid_file(Some("1234"), false, 99) {
        Claim::Proceed { remove_stale, content } => {
            assert!(remove_stale);
            assert_eq!(content, "99");
        }
        other => panic!("unexpected {:?}", other),
    }
    // Content that names no process is overwritten whatever the probe said.
    match claim_pid_file(Some("garbage"), true, 99) {
        Claim::Proceed { remove_stale, content } => {
            assert!(!remove_stale);
            assert_eq!(content, "99");
        }
        other => panic!("unexpected {:?}", other),
    }
}

#[test]
fn cleanup_only_when_self_owned() {
    assert!(owns_pid_file(Some("99"), 99));
    assert!(owns_pid_file(Some(" 99\n"), 99));
    assert!(!owns_pid_file(Some("990"), 99));
    assert!(!owns_pid_file(Some("9"), 99));
    assert!(!owns_pid_file(Some("+99"), 99));
    assert!(!owns_pid_file(Some("099"), 99));
    assert!(!owns_pid_file(Some(""), 99));
    assert!(owns_pid_file(Some("0"), 0));
    assert!(owns_pid_file(Some("4294967295"), u32::MAX));
}

#[test]
fn events_of_the_main_loop() {
    assert!(matches!(on_event(DaemonEvent::Connected), LoopStep::Serve));
    assert!(matches!(on_event(DaemonEvent::AcceptFailed), LoopStep::Continue));
    assert!(matches!(on_event(DaemonEvent::Terminate), LoopStep::Stop { signal: true }));
    assert!(matches!(on_event(DaemonEvent::Interrupt), LoopStep::Stop { signal: true }));
    assert!(matches!(on_event(DaemonEvent::ShutdownSignalled), LoopStep::Stop { signal: false }));
    assert!(matches!(on_event(DaemonEvent::ReloadRequested), LoopStep::Reload));
    let event = WatcherEvent::FileChanged { set_name: "docs".to_string(), path: "/x/y".to_string() };
    match on_event(DaemonEvent::Watcher(event)) {
        LoopStep::FileChange { set_name } => assert_eq!(set_name, "docs"),
        other => panic!("unexpected {:?}", other),
    }
}

#[test]
fn shutdown_cleanup() {
    let mut m = JobManager::new(&config(vec![set("a", None), set("b", None)]));
    m.mount_started("b", 555).unwrap();
    assert!(matches!(on_event(DaemonEvent::ShutdownSignalled), LoopStep::Stop { .. }));
    let plan = m.unmount(None).unwrap();
    assert_eq!(plan.len(), 1);
    assert_eq!(plan[0].name, "b");
    assert_eq!(
        child_action(HelperOutcome::Succeeded, plan[0].mount_child),
        ChildAction::AwaitThenKill { child: 555, grace_ms: 2000 }
    );
    assert_eq!(child_action(HelperOutcome::Failed, plan[0].mount_child), ChildAction::Kill { child: 555 });
    m.unmount_finished("b", HelperOutcome::Succeeded);
    assert!(m.unmount(None).unwrap().is_empty());
    assert_eq!(m.job("b").unwrap().mount_child, None);
    assert!(owns_pid_file(Some("77"), 77));
    assert_eq!(MOUNT_GRACEFUL_EXIT_TIMEOUT_MS, 2000);
    assert_eq!(MOUNT_STARTUP_CHECK_MS, 200);
}

#[test]
fn reload_replaces_or_keeps() {
    let mut m = JobManager::new(&config(vec![set("a", None), set("b", None)]));
    match reload(&mut m, Err(ConfigError::Toml("expected `=`".to_string()))) {
        Reload::Kept { reason } => assert_eq!(reason, "TOML error: expected `=`"),
        Reload::Replaced { .. } => panic!("a broken file must change nothing"),
    }
    assert_eq!(m.names(), vec!["a", "b"]);

    match reload(&mut m, Ok(config(vec![set("b", Some(vec!["*.tmp"])), set("c", None)]))) {
        Reload::Replaced { plan, watcher } => {
            assert_eq!(plan.refresh, vec!["b", "c"]);
            assert!(plan.unmount.is_empty());
            let watcher = watcher.ok().unwrap();
            assert_eq!(watcher.watch_paths(), vec!["/src/b", "/src/c"]);
            assert!(watcher.handle_event("/src/b/x.tmp", false).is_none());
        }
        Reload::Kept { .. } => panic!("a good file must be taken"),
    }
    assert_eq!(m.names(), vec!["b", "c"]);

    match reload(&mut m, Ok(config(vec![set("c", Some(vec!["["]))]))) {
        Reload::Replaced { watcher, .. } => assert!(watcher.is_err()),
        Reload::Kept { .. } => panic!("a good file must be taken"),
    }
    assert_eq!(m.names(), vec!["c"]);
}
