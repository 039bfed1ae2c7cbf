use backutil::config::{BackupSet, RetentionPolicy};
use backutil::executor::{
    backup_result, parse_reclaimed_bytes, parse_restic_size, read_line, read_snapshots,
    EngineError, EngineExit, LineReading, ResticExecutor,
};
use backutil::mount::MountStartup;
use backutil::types::{Seconds, Timestamp};

const NOW: Timestamp = Timestamp { secs: 1_700_000_000, nanos: 42 };

fn set_with(retention: Option<RetentionPolicy>) -> BackupSet {
    BackupSet {
        name: "docs".to_string(),
        source: Some("/home/u/docs".to_string()),
        sources: Some(vec!["/home/u/more".to_string(), "/srv/x".to_string()]),
        target: "/mnt/repo".to_string(),
        exclude: Some(vec!["*.tmp".to_string(), "cache/**".to_string()]),
        debounce_seconds: None,
        retention,
    }
}

fn exited(success: bool, stdout: &str, stderr: &str) -> EngineExit {
    EngineExit::Exited { success, stdout: stdout.to_string(), stderr: stderr.to_string() }
}

fn failed_message(e: EngineError) -> String {
    match e {
        EngineError::Failed(m) => m,
        other => panic!("expected a failure, got {:?}", other),
    }
}

#[test]
fn init_arguments() {
    let engine = ResticExecutor::new();
    assert_eq!(
        engine.init("/mnt/repo", "/c/.repo_password"),
        vec!["init", "--repo", "/mnt/repo", "--password-file", "/c/.repo_password"]
    );
}

#[test]
fn backup_arguments() {
    let engine = ResticExecutor::new();
    assert_eq!(
        engine.backup(&set_with(None), "/pw"),
        vec![
            "backup",
            "--repo",
            "/mnt/repo",
            "--password-file",
            "/pw",
            "--json",
            "--exclude",
            "*.tmp",
            "--exclude",
            "cache/**",
            "/home/u/docs",
            "/home/u/more",
            "/srv/x",
        ]
    );
    let mut plain = set_with(None);
    plain.exclude = None;
    plain.sources = None;
    assert_eq!(
        engine.backup(&plain, "/pw"),
        vec!["backup", "--repo", "/mnt/repo", "--password-file", "/pw", "--json", "/home/u/docs"]
    );
}

#[test]
fn snapshots_arguments() {
    let engine = ResticExecutor::new();
    assert_eq!(
        engine.snapshots("/mnt/repo", None, "/pw"),
        vec!["snapshots", "--repo", "/mnt/repo", "--password-file", "/pw", "--json"]
    );
    assert_eq!(
        engine.snapshots("/mnt/repo", Some(10), "/pw"),
        vec!["snapshots", "--repo", "/mnt/repo", "--password-file", "/pw", "--json", "--last", "10"]
    );
    assert_eq!(engine.snapshots("r", Some(0), "p").last().unwrap(), "0");
}

#[test]
fn mount_arguments() {
    let engine = ResticExecutor::new();
    assert_eq!(
        engine.mount("/mnt/repo", None, "/d/mnt/docs", "/pw"),
        vec!["mount", "--repo", "/mnt/repo", "--password-file", "/pw", "/d/mnt/docs"]
    );
    assert_eq!(
        engine.mount("/mnt/repo", Some("abcd1234"), "/d/mnt/docs", "/pw"),
        vec![
            "mount",
            "--repo",
            "/mnt/repo",
            "--password-file",
            "/pw",
            "--snapshot",
            "abcd1234",
            "/d/mnt/docs"
        ]
    );
}

#[test]
fn prune_arguments() {
    let engine = ResticExecutor::new();
    let policy = RetentionPolicy {
        keep_last: Some(2),
        keep_daily: Some(7),
        keep_weekly: None,
        keep_monthly: Some(12),
    };
    assert_eq!(
        engine.prune(&set_with(Some(policy)), "/pw").unwrap(),
        vec![
            "forget",
            "--repo",
            "/mnt/repo",
            "--password-file",
            "/pw",
            "--prune",
            "--keep-last",
            "2",
            "--keep-daily",
            "7",
            "--keep-monthly",
            "12",
        ]
    );
    let weekly = RetentionPolicy { keep_weekly: Some(4), ..RetentionPolicy::default() };
    assert_eq!(
        engine.prune(&set_with(Some(weekly)), "/pw").unwrap()[6..],
        ["--keep-weekly".to_string(), "4".to_string()]
    );
}

#[test]
fn prune_without_keep_rule_is_refused() {
    let engine = ResticExecutor::new();
    match engine.prune(&set_with(None), "/pw") {
        Err(EngineError::Policy(m)) => assert_eq!(
            m,
            "Cannot prune set 'docs': no retention policy specified. This would delete all snapshots."
        ),
        other => panic!("expected a refusal, got {:?}", other),
    }
    match engine.prune(&set_with(Some(RetentionPolicy::default())), "/pw") {
        Err(EngineError::Policy(m)) => assert_eq!(
            m,
            "Cannot prune set 'docs': retention policy has no keep rules. This would delete all snapshots."
        ),
        other => panic!("expected a refusal, got {:?}", other),
    }
}

#[test]
fn sizes_scale_by_unit() {
    assert_eq!(parse_restic_size("123"), 123);
    assert_eq!(parse_restic_size("100 B"), 100);
    assert_eq!(parse_restic_size("5 bytes"), 5);
    assert_eq!(parse_restic_size("1 KiB"), 1024);
    assert_eq!(parse_restic_size("1.5 KiB"), 1536);
    assert_eq!(parse_restic_size("0.5 k"), 512);
    assert_eq!(parse_restic_size("1.23 MiB"), 1_289_748);
    assert_eq!(parse_restic_size("2 m"), 2_097_152);
    assert_eq!(parse_restic_size("1.234 GiB"), 1_324_997_410);
    assert_eq!(parse_restic_size("2 GIB"), 2_147_483_648);
    assert_eq!(parse_restic_size("1 TiB"), 1_099_511_627_776);
    assert_eq!(parse_restic_size("3 t"), 3_298_534_883_328);
    assert_eq!(parse_restic_size("  7.9  "), 7);
    assert_eq!(parse_restic_size("7.9 furlongs"), 7);
    assert_eq!(parse_restic_size(".5 KiB"), 512);
    assert_eq!(parse_restic_size("4. KiB"), 4096);
    assert_eq!(parse_restic_size("1 KiB extra words"), 1024);
}

#[test]
fn sizes_that_are_no_figure_count_zero() {
    assert_eq!(parse_restic_size(""), 0);
    assert_eq!(parse_restic_size("   "), 0);
    assert_eq!(parse_restic_size("abc"), 0);
    assert_eq!(parse_restic_size("abc MiB"), 0);
    assert_eq!(parse_restic_size("."), 0);
    assert_eq!(parse_restic_size("1.2.3 MiB"), 0);
    assert_eq!(parse_restic_size("-5 KiB"), 0);
    assert_eq!(parse_restic_size("1e3"), 0);
}

#[test]
fn sizes_saturate() {
    assert_eq!(parse_restic_size("18446744073709551615"), u64::MAX);
    assert_eq!(parse_restic_size("18446744073709551616"), u64::MAX);
    assert_eq!(parse_restic_size("99999999999999999999999 B"), u64::MAX);
    assert_eq!(parse_restic_size("18446744073709551615 KiB"), u64::MAX);
    assert_eq!(parse_restic_size("16777216 TiB"), u64::MAX);
    assert_eq!(parse_restic_size("16777215 TiB"), 16_777_215 * 1_099_511_627_776);
    assert_eq!(parse_restic_size("0.0000000000000000009999 TiB"), 0);
    assert_eq!(parse_restic_size("0.000000000001 TiB"), 1);
}

#[test]
fn reclaimed_bytes_come_from_the_marked_line() {
    let report = "loading indexes...\n\
                  to delete: 12 blobs / 1.5 MiB\n\
                  total bytes reclaimed: 1.5 KiB\n\
                  total bytes reclaimed: 9 GiB\n\
                  done\n";
    assert_eq!(parse_reclaimed_bytes(report), 1536);
    assert_eq!(parse_reclaimed_bytes("total bytes reclaimed: 42\r\n"), 42);
    assert_eq!(parse_reclaimed_bytes("x total bytes reclaimed:   3 KiB : rest"), 3072);
    assert_eq!(parse_reclaimed_bytes("a: total bytes reclaimed: 3 KiB"), 0);
    assert_eq!(parse_reclaimed_bytes("total bytes reclaimed: soon"), 0);
    assert_eq!(parse_reclaimed_bytes("nothing to see"), 0);
    assert_eq!(parse_reclaimed_bytes(""), 0);
    assert_eq!(parse_reclaimed_bytes("Total Bytes Reclaimed: 5"), 0);
}

#[test]
fn summary_lines_are_read() {
    match read_line(
        r#"{"message_type":"summary","files_new":1,"data_added":1024,"total_duration":4.2,"snapshot_id":"a1b2c3d4"}"#,
    ) {
        LineReading::Summary { snapshot_id, data_added, total_duration } => {
            assert_eq!(snapshot_id, "a1b2c3d4");
            assert_eq!(data_added, 1024);
            assert_eq!(f64::from_bits(total_duration.bits), 4.2);
        }
        other => panic!("unexpected reading {:?}", other),
    }
    match read_line(r#"{"message_type":"summary","data_added":0,"total_duration":3,"snapshot_id":""}"#) {
        LineReading::Summary { total_duration, .. } => {
            assert_eq!(f64::from_bits(total_duration.bits), 3.0)
        }
        other => panic!("unexpected reading {:?}", other),
    }
    assert!(matches!(read_line(r#"{"message_type":"status","percent_done":0.5}"#), LineReading::Other));
    assert!(matches!(read_line("not json"), LineReading::Other));
    assert!(matches!(read_line(""), LineReading::Other));
    assert!(matches!(read_line(r#"["message_type","summary"]"#), LineReading::Other));
    assert!(matches!(read_line(r#"{"message_type":7}"#), LineReading::Other));
    assert!(matches!(
        read_line(r#"{"message_type":"summary","data_added":1,"total_duration":1.0}"#),
        LineReading::Malformed
    ));
    assert!(matches!(
        read_line(r#"{"message_type":"summary","data_added":-1,"total_duration":1.0,"snapshot_id":"x"}"#),
        LineReading::Malformed
    ));
    assert!(matches!(
        read_line(r#"{"message_type":"summary","data_added":1.5,"total_duration":1.0,"snapshot_id":"x"}"#),
        LineReading::Malformed
    ));
    assert!(matches!(
        read_line(r#"{"message_type":"summary","data_added":1,"total_duration":"1","snapshot_id":"x"}"#),
        LineReading::Malformed
    ));
    assert!(matches!(
        read_line(r#"{"message_type":"summary","data_added":1,"total_duration":1,"snapshot_id":null}"#),
        LineReading::Malformed
    ));
}

#[test]
fn backup_with_summary_succeeds() {
    let engine = ResticExecutor::new();
    let stdout = "{\"message_type\":\"status\",\"percent_done\":0.5}\n\
                  {\"message_type\":\"summary\",\"data_added\":1,\"total_duration\":1.0,\"snapshot_id\":\"old\"}\n\
                  {\"message_type\":\"summary\",\"data_added\":1048576,\"total_duration\":4.2,\"snapshot_id\":\"a1b2c3d4\"}\n\
                  trailing noise\n";
    let result = engine.backup_finished(&exited(true, stdout, ""), NOW).unwrap();
    assert!(result.success);
    assert_eq!(result.snapshot_id, "a1b2c3d4");
    assert_eq!(result.added_bytes, 1_048_576);
    assert_eq!(f64::from_bits(result.duration_secs.bits), 4.2);
    assert_eq!(result.timestamp, NOW);
    assert_eq!(result.error_message, None);
}

#[test]
fn nonzero_exit_with_summary_is_success() {
    let engine = ResticExecutor::new();
    let stdout = "{\"message_type\":\"error\",\"item\":\"/x\"}\n\
                  {\"message_type\":\"summary\",\"data_added\":7,\"total_duration\":0.5,\"snapshot_id\":\"feed\"}\n";
    let result = engine.backup_finished(&exited(false, stdout, "warning: /x unreadable"), NOW).unwrap();
    assert!(result.success);
    assert_eq!(result.snapshot_id, "feed");
    assert_eq!(result.added_bytes, 7);
    assert_eq!(result.error_message, None);
}

#[test]
fn backup_without_summary_fails() {
    let engine = ResticExecutor::new();
    let result = engine
        .backup_finished(&exited(true, "{\"message_type\":\"status\"}\nplain text\n", ""), NOW)
        .unwrap();
    assert!(!result.success);
    assert_eq!(result.error_message.as_deref(), Some("no summary in output"));
    assert_eq!(result.snapshot_id, "");
    assert_eq!(result.added_bytes, 0);
    assert_eq!(result.duration_secs, Seconds::zero());
    assert_eq!(result.timestamp, NOW);

    let result = engine.backup_finished(&exited(true, "", ""), NOW).unwrap();
    assert_eq!(result.error_message.as_deref(), Some("no summary in output"));
}

#[test]
fn nonzero_exit_without_summary_carries_stderr() {
    let engine = ResticExecutor::new();
    let result =
        engine.backup_finished(&exited(false, "", "Fatal: wrong password"), NOW).unwrap();
    assert!(!result.success);
    assert_eq!(result.error_message.as_deref(), Some("Restic error: Fatal: wrong password"));
    let result = engine
        .backup_finished(&exited(false, "{\"message_type\":\"status\"}\n", "disk full"), NOW)
        .unwrap();
    assert_eq!(result.error_message.as_deref(), Some("Restic error: disk full"));
}

#[test]
fn malformed_summary_aborts() {
    let engine = ResticExecutor::new();
    let stdout = "{\"message_type\":\"summary\",\"data_added\":7,\"total_duration\":0.5,\"snapshot_id\":\"ok\"}\n\
                  {\"message_type\":\"summary\",\"data_added\":7}\n";
    let e = engine.backup_finished(&exited(true, stdout, ""), NOW).unwrap_err();
    assert_eq!(failed_message(e), "Failed to parse restic summary JSON");
}

#[test]
fn engine_that_did_not_start_or_was_cancelled() {
    let engine = ResticExecutor::new();
    let result = engine.backup_finished(&EngineExit::NotStarted, NOW).unwrap();
    assert!(!result.success);
    assert_eq!(result.error_message.as_deref(), Some("Failed to execute restic"));
    assert!(matches!(
        engine.backup_finished(&EngineExit::Cancelled, NOW),
        Err(EngineError::Cancelled)
    ));
    assert_eq!(EngineError::Cancelled.message(), "Operation cancelled");
    assert_eq!(EngineError::Failed("x".to_string()).message(), "x");
    assert_eq!(EngineError::Policy("y".to_string()).message(), "y");
}

#[test]
fn verdict_from_readings() {
    let readings = vec![
        LineReading::Other,
        LineReading::Summary {
            snapshot_id: "one".to_string(),
            data_added: 1,
            total_duration: Seconds { bits: 9 },
        },
        LineReading::Other,
    ];
    let result = backup_result(false, &readings, "err", NOW).unwrap();
    assert!(result.success);
    assert_eq!(result.snapshot_id, "one");
    assert_eq!(result.duration_secs, Seconds { bits: 9 });
    let result = backup_result(false, &vec![LineReading::Other], "err", NOW).unwrap();
    assert_eq!(result.error_message.as_deref(), Some("Restic error: err"));
    let result = backup_result(true, &vec![], "err", NOW).unwrap();
    assert_eq!(result.error_message.as_deref(), Some("no summary in output"));
}

#[test]
fn other_operations_need_status_zero() {
    let engine = ResticExecutor::new();
    assert!(engine.init_finished(&exited(true, "created", "")).is_ok());
    assert_eq!(
        failed_message(engine.init_finished(&exited(false, "out", "no space")).unwrap_err()),
        "Restic error: no space"
    );
    assert_eq!(
        failed_message(engine.init_finished(&EngineExit::NotStarted).unwrap_err()),
        "Failed to execute restic"
    );
    assert!(matches!(engine.init_finished(&EngineExit::Cancelled), Err(EngineError::Cancelled)));

    assert_eq!(
        engine.prune_finished(&exited(true, "total bytes reclaimed: 2 KiB\n", "")).unwrap(),
        2048
    );
    assert_eq!(engine.prune_finished(&exited(true, "all good\n", "")).unwrap(), 0);
    assert_eq!(
        failed_message(
            engine.prune_finished(&exited(false, "total bytes reclaimed: 2 KiB\n", "locked")).unwrap_err()
        ),
        "Restic error: locked"
    );
    assert_eq!(
        failed_message(engine.snapshots_finished(&exited(false, "[]", "gone")).unwrap_err()),
        "Restic error: gone"
    );
}

#[test]
fn snapshots_are_listed_in_engine_order() {
    let engine = ResticExecutor::new();
    let stdout = r#"[
      {"time":"2023-06-01T12:00:00+02:00","tree":"t","paths":["/home/user/docs","/srv"],
       "hostname":"h","id":"1111111122222222","short_id":"11111111","tags":null},
      {"time":"2024-01-02T03:04:05.123456789Z","paths":["/home/user/docs"],
       "id":"abcdef0123456789","short_id":"abcdef01","tags":["nightly","x"],
       "summary":{"total_bytes_processed":4096,"files_new":1}}
    ]"#;
    let list = engine.snapshots_finished(&exited(true, stdout, "")).unwrap();
    assert_eq!(list.len(), 2);
    assert_eq!(list[0].id, "1111111122222222");
    assert_eq!(list[0].short_id, "11111111");
    assert_eq!(list[0].timestamp, Timestamp { secs: 1_685_613_600, nanos: 0 });
    assert_eq!(list[0].paths, vec!["/home/user/docs", "/srv"]);
    assert!(list[0].tags.is_empty());
    assert_eq!(list[0].total_bytes, None);
    assert_eq!(list[1].id, "abcdef0123456789");
    assert_eq!(list[1].short_id, "abcdef01");
    assert_eq!(list[1].timestamp, Timestamp { secs: 1_704_164_645, nanos: 123_456_789 });
    assert_eq!(list[1].tags, vec!["nightly", "x"]);
    assert_eq!(list[1].total_bytes, Some(4096));

    assert!(engine.snapshots_finished(&exited(true, "[]", "")).unwrap().is_empty());
}

#[test]
fn unreadable_listings_fail() {
    let engine = ResticExecutor::new();
    for bad in [
        "",
        "not json",
        "{}",
        r#"[{"id":"a","short_id":"b","paths":[]}]"#,
        r#"[{"time":"yesterday","id":"a","short_id":"b","paths":[]}]"#,
        r#"[{"time":"2024-01-02T03:04:05Z","id":"a","short_id":"b","paths":[1]}]"#,
        r#"[{"time":"2024-01-02T03:04:05Z","id":"a","short_id":"b","paths":[],"tags":"x"}]"#,
        r#"[{"time":"2024-01-02T03:04:05Z","id":7,"short_id":"b","paths":[]}]"#,
        r#"["x"]"#,
    ] {
        assert!(read_snapshots(bad).is_none(), "{}", bad);
        assert_eq!(
            failed_message(engine.snapshots_finished(&exited(true, bad, "")).unwrap_err()),
            "Failed to parse restic snapshots JSON"
        );
    }
    let ok = r#"[{"time":"2024-01-02T03:04:05Z","id":"a","short_id":"b","paths":[]}]"#;
    assert_eq!(read_snapshots(ok).unwrap().len(), 1);
}

#[test]
fn mount_startup_verdict() {
    let engine = ResticExecutor::new();
    assert!(engine.mount_started(&MountStartup::Alive).is_ok());
    assert!(engine.mount_started(&MountStartup::ExitedCleanly).is_ok());
    assert!(engine.mount_started(&MountStartup::Unknown).is_ok());
    assert_eq!(
        failed_message(
            engine
                .mount_started(&MountStartup::ExitedWithFailure("fusermount3: not found".to_string()))
                .unwrap_err()
        ),
        "Restic mount failed: fusermount3: not found"
    );
}
