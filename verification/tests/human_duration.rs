use backutil::display::format_human_duration;

#[test]
fn test_format_human_duration_seconds() {
    assert_eq!(format_human_duration(0), "0s ago");
    assert_eq!(format_human_duration(30), "30s ago");
    assert_eq!(format_human_duration(59), "59s ago");
}

#[test]
fn test_format_human_duration_minutes() {
    assert_eq!(format_human_duration(60), "1 min ago");
    assert_eq!(format_human_duration(61), "1 min ago");
    assert_eq!(format_human_duration(120), "2 mins ago");
    assert_eq!(format_human_duration(3599), "59 mins ago");
}

#[test]
fn test_format_human_duration_hours() {
    assert_eq!(format_human_duration(3600), "1 hour ago");
    assert_eq!(format_human_duration(7200), "2 hours ago");
    assert_eq!(format_human_duration(86399), "23 hours ago");
}

#[test]
fn test_format_human_duration_days() {
    assert_eq!(format_human_duration(86400), "1 day ago");
    assert_eq!(format_human_duration(172800), "2 days ago");
    assert_eq!(format_human_duration(604800), "7 days ago");
}

#[test]
fn test_format_human_duration_negative() {
    assert_eq!(format_human_duration(-1), "just now");
    assert_eq!(format_human_duration(-3600), "just now");
}

#[test]
fn human_duration_extremes() {
    assert_eq!(format_human_duration(i64::MIN), "just now");
    assert_eq!(format_human_duration(i64::MAX), "106751991167300 days ago");
    assert_eq!(format_human_duration(119), "1 min ago");
    assert_eq!(format_human_duration(172799), "1 day ago");
}
