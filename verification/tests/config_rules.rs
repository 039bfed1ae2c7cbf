use backutil::config::{
    default_debounce, expand_home, expand_home_in, is_valid_set_name, BackupSet, Config,
    ConfigError, GlobalConfig, RetentionPolicy,
};

fn set(name: &str, source: Option<&str>, sources: Option<Vec<&str>>, target: &str) -> BackupSet {
    BackupSet {
        name: name.to_string(),
        source: source.map(|s| s.to_string()),
        sources: sources.map(|v| v.into_iter().map(|s| s.to_string()).collect()),
        target: target.to_string(),
        exclude: None,
        debounce_seconds: None,
        retention: None,
    }
}

fn validation_message(result: Result<(), ConfigError>) -> String {
    match result {
        Err(ConfigError::Validation(m)) => m,
        other => panic!("expected a validation error, got {:?}", other),
    }
}

#[test]
fn test_path_expansion() {
    let home = directories::BaseDirs::new().unwrap().home_dir().to_path_buf();
    let home_str = home.to_string_lossy();

    let set = BackupSet {
        name: "test".to_string(),
        source: Some("~/test".to_string()),
        sources: None,
        target: "~/backup".to_string(),
        exclude: None,
        debounce_seconds: None,
        retention: None,
    };

    let mut config = Config { global: GlobalConfig::default(), backup_sets: vec![set] };

    config.validate().unwrap();

    assert_eq!(config.backup_sets[0].source.as_ref().unwrap(), &format!("{}/test", home_str));
    assert_eq!(config.backup_sets[0].target, format!("{}/backup", home_str));
}

#[test]
fn test_mutually_exclusive_sources() {
    let mut config = Config {
        global: GlobalConfig { debounce_seconds: 60, retention: None },
        backup_sets: vec![set("test", Some("~/test"), Some(vec!["~/test1", "~/test2"]), "/tmp/backup")],
    };
    let result = config.validate();
    assert!(result.is_err());
    assert!(result.unwrap_err().message().contains("cannot have both 'source' and 'sources'"));
}

#[test]
fn test_duplicate_names() {
    let mut config = Config {
        global: GlobalConfig { debounce_seconds: 60, retention: None },
        backup_sets: vec![
            set("dup", Some("~/test1"), None, "/tmp/backup1"),
            set("dup", Some("~/test2"), None, "/tmp/backup2"),
        ],
    };
    let result = config.validate();
    assert!(result.is_err());
    assert!(result.unwrap_err().message().contains("Duplicate backup set name"));
}

#[test]
fn duplicate_name_message_is_exact() {
    let mut config = Config {
        global: GlobalConfig::default(),
        backup_sets: vec![
            set("a", Some("/x"), None, "/r1"),
            set("b", Some("/y"), None, "/r2"),
            set("a", Some("/z"), None, "/r3"),
        ],
    };
    let result = config.validate_in(Some("/home/u"));
    assert_eq!(validation_message(result), "Duplicate backup set name: a");
    assert_eq!(config.backup_sets[0].source.as_deref(), Some("/x"));
}

#[test]
fn both_source_fields_message_is_exact() {
    let mut config = Config {
        global: GlobalConfig::default(),
        backup_sets: vec![set("docs", Some("/a"), Some(vec!["/b"]), "/r")],
    };
    assert_eq!(
        validation_message(config.validate_in(None)),
        "Set 'docs' cannot have both 'source' and 'sources'"
    );
}

#[test]
fn missing_source_fields_message_is_exact() {
    let mut config = Config {
        global: GlobalConfig::default(),
        backup_sets: vec![set("docs", None, None, "/r")],
    };
    assert_eq!(
        validation_message(config.validate_in(None)),
        "Set 'docs' must have either 'source' or 'sources'"
    );
}

#[test]
fn empty_sources_are_rejected() {
    let mut config = Config {
        global: GlobalConfig::default(),
        backup_sets: vec![set("docs", None, Some(vec![]), "/r")],
    };
    assert_eq!(
        validation_message(config.validate_in(None)),
        "Set 'docs' must have at least one source"
    );
}

#[test]
fn first_fault_is_reported_and_nothing_is_expanded() {
    let mut config = Config {
        global: GlobalConfig::default(),
        backup_sets: vec![
            set("ok", Some("~/a"), None, "~/r"),
            set("bad", None, None, "~/r2"),
            set("ok", Some("~/b"), None, "~/r3"),
        ],
    };
    let message = validation_message(config.validate_in(Some("/home/u")));
    assert_eq!(message, "Set 'bad' must have either 'source' or 'sources'");
    assert_eq!(config.backup_sets[0].source.as_deref(), Some("~/a"));
    assert_eq!(config.backup_sets[0].target, "~/r");
}

#[test]
fn valid_config_is_expanded_in_place() {
    let mut config = Config {
        global: GlobalConfig { debounce_seconds: 30, retention: None },
        backup_sets: vec![
            set("one", Some("~/docs"), None, "/mnt/repo"),
            set("two", None, Some(vec!["~/a", "/abs/b", "~c"]), "~/repo"),
        ],
    };
    assert!(config.validate_in(Some("/home/u")).is_ok());
    assert_eq!(config.global.debounce_seconds, 30);
    assert_eq!(config.backup_sets.len(), 2);
    assert_eq!(config.backup_sets[0].name, "one");
    assert_eq!(config.backup_sets[0].source.as_deref(), Some("/home/u/docs"));
    assert_eq!(config.backup_sets[0].target, "/mnt/repo");
    assert_eq!(
        config.backup_sets[1].sources,
        Some(vec!["/home/u/a".to_string(), "/abs/b".to_string(), "~c".to_string()])
    );
    assert_eq!(config.backup_sets[1].target, "/home/u/repo");
}

#[test]
fn home_expansion_needs_marker_and_home() {
    assert_eq!(expand_home_in("~/x/y", Some("/home/u")), "/home/u/x/y");
    assert_eq!(expand_home_in("~/", Some("/home/u")), "/home/u/");
    assert_eq!(expand_home_in("~", Some("/home/u")), "~");
    assert_eq!(expand_home_in("/a/~/b", Some("/home/u")), "/a/~/b");
    assert_eq!(expand_home_in("~/x", None), "~/x");
    assert_eq!(expand_home_in("", Some("/home/u")), "");
    assert_eq!(expand_home("/already/absolute"), "/already/absolute");
}

#[test]
fn defaults() {
    assert_eq!(default_debounce(), 60);
    let global = GlobalConfig::default();
    assert_eq!(global.debounce_seconds, 60);
    assert_eq!(
        global.retention,
        Some(RetentionPolicy {
            keep_last: Some(10),
            keep_daily: None,
            keep_weekly: None,
            keep_monthly: None
        })
    );
    assert!(!RetentionPolicy::default().has_any_rule());
    assert!(global.retention.unwrap().has_any_rule());
}

#[test]
fn effective_settings_fall_back_to_global() {
    let mut s = set("a", Some("/x"), None, "/r");
    assert_eq!(s.effective_debounce(60), 60);
    s.debounce_seconds = Some(5);
    assert_eq!(s.effective_debounce(60), 5);
    let global = Some(RetentionPolicy { keep_last: Some(3), ..RetentionPolicy::default() });
    assert_eq!(s.with_effective_retention(global).retention, global);
    let own = RetentionPolicy { keep_daily: Some(7), ..RetentionPolicy::default() };
    s.retention = Some(own);
    assert_eq!(s.with_effective_retention(global).retention, Some(own));
    assert_eq!(s.with_effective_retention(None).name, "a");
}

#[test]
fn source_paths_put_source_first() {
    let s = set("a", Some("/one"), Some(vec!["/two", "/three"]), "/r");
    assert_eq!(s.source_paths(), vec!["/one", "/two", "/three"]);
    let t = set("b", None, Some(vec!["/two"]), "/r");
    assert_eq!(t.source_paths(), vec!["/two"]);
}

#[test]
fn error_messages() {
    assert_eq!(ConfigError::Io("gone".to_string()).message(), "IO error: gone");
    assert_eq!(ConfigError::Toml("bad".to_string()).message(), "TOML error: bad");
    assert_eq!(
        ConfigError::Validation("x".to_string()).message(),
        "Config validation error: x"
    );
    assert_eq!(
        ConfigError::MissingField("name".to_string()).message(),
        "Missing required field: name"
    );
}

#[test]
fn set_names_are_a_restricted_class() {
    for good in ["a", "docs", "my-set_2", "A-Z", "0", "-", "_"] {
        assert!(is_valid_set_name(good), "{}", good);
    }
    for bad in ["", "../../etc", "a/b", "a b", "a.b", "é", "set\n", "/abs", "~"] {
        assert!(!is_valid_set_name(bad), "{:?}", bad);
    }
}
