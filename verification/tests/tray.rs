use aura::tray::{encode_utf16, fill_tip, format_running_duration, format_running_secs, format_stat_row, wide_null, SessionStats};
use std::time::Duration;

#[test]
fn format_running_duration_handles_sub_minute() {
    assert_eq!(format_running_duration(Duration::from_secs(0)), "<1m");
    assert_eq!(format_running_duration(Duration::from_secs(59)), "<1m");
}

#[test]
fn format_running_duration_handles_minutes_and_hours() {
    assert_eq!(format_running_duration(Duration::from_secs(60)), "1m");
    assert_eq!(format_running_duration(Duration::from_secs(59 * 60 + 59)), "59m");
    assert_eq!(format_running_duration(Duration::from_secs(60 * 60)), "1h 0m");
    assert_eq!(
        format_running_duration(Duration::from_secs((90 * 60) as u64)),
        "1h 30m"
    );
    assert_eq!(
        format_running_duration(Duration::from_secs((72 * 60 * 60) as u64)),
        "72h 0m"
    );
}

#[test]
fn format_running_duration_handles_days_over_72_hours() {
    assert_eq!(
        format_running_duration(Duration::from_secs((72 * 60 * 60 + 60) as u64)),
        "72h 1m"
    );
    assert_eq!(
        format_running_duration(Duration::from_secs((73 * 60 * 60 + 60) as u64)),
        "3d 1h 1m"
    );
    assert_eq!(
        format_running_duration(Duration::from_secs((93 * 60 * 60 + 49 * 60) as u64)),
        "3d 21h 49m"
    );
}

#[test]
fn session_stats_counters_increment() {
    let mut stats = SessionStats::new();
    assert_eq!(stats.images_shown(), 0);
    assert_eq!(stats.manual_skips(), 0);

    stats.inc_images_shown();
    stats.inc_images_shown();
    stats.inc_manual_skips();

    assert_eq!(stats.images_shown(), 2);
    assert_eq!(stats.manual_skips(), 1);
}

#[test]
fn running_secs_ignores_partial_minutes() {
    assert_eq!(format_running_secs(119), "1m");
    assert_eq!(format_running_secs(3600 * 24 * 10), "10d 0h 0m");
}

#[test]
fn stat_row_separates_label_and_value_with_tab() {
    assert_eq!(format_stat_row("Images shown", "12"), "Images shown\t12");
}

#[test]
fn utf16_encoding_matches_std() {
    let text = "aura \u{1F600} ß";
    let expected: Vec<u16> = text.encode_utf16().collect();
    assert_eq!(encode_utf16(text), expected);
    let mut with_null = expected.clone();
    with_null.push(0);
    assert_eq!(wide_null(text), with_null);
}

#[test]
fn tooltip_is_cut_and_zero_terminated() {
    let mut buf = vec![7u16; 4];
    fill_tip(&mut buf, "abcdef");
    assert_eq!(buf, vec![97, 98, 99, 0]);
    let mut buf = vec![7u16; 6];
    fill_tip(&mut buf, "ab");
    assert_eq!(buf, vec![97, 98, 0, 0, 0, 0]);
    let mut empty: Vec<u16> = Vec::new();
    fill_tip(&mut empty, "ab");
    assert!(empty.is_empty());
}

#[test]
fn running_duration_uses_whole_seconds() {
    assert_eq!(format_running_duration(Duration::from_millis(59_999)), "<1m");
    assert_eq!(format_running_duration(Duration::from_millis(60_500)), "1m");
    assert_eq!(format_running_duration(Duration::from_secs(3 * 86_400 + 3_600 + 61)), "3d 1h 1m");
}
