use point_monitor::help_utils::{
    can_count_event_exec, can_count_exec, copy_table, device_hist_key, extract_device_model, format_ts_and_hour,
    get_peak_hour, get_user_path_by_three, histogram_with_event, init_hour_histogram, is_night_cat,
    night_sums_fit, platform_hist_key, set_user_device_hist, set_user_hist_config, set_user_platform_hist,
    time_diff_to_day, update_hour_histogram,
};

fn table(rows: &[(&str, i64)]) -> Vec<(String, i64)> {
    rows.iter().map(|(k, c)| (k.to_string(), *c)).collect()
}

#[test]
fn time_diff_counts_whole_days() {
    assert_eq!(time_diff_to_day(0, 86_400_000), 1);
    assert_eq!(time_diff_to_day(0, 3 * 86_400_000 + 5), 3);
    assert_eq!(time_diff_to_day(0, 86_399_999), 0);
}

#[test]
fn time_diff_that_does_not_move_forward_is_one_day() {
    assert_eq!(time_diff_to_day(100, 100), 1);
    assert_eq!(time_diff_to_day(500, 100), 1);
}

#[test]
fn hour_histogram_starts_at_zero() {
    let h = init_hour_histogram();
    assert_eq!(h.len(), 24);
    for (i, (hour, count)) in h.iter().enumerate() {
        assert_eq!(*hour, i as i64);
        assert_eq!(*count, 0);
    }
}

#[test]
fn format_ts_and_hour_uses_utc() {
    assert_eq!(format_ts_and_hour(0), Some(("1970-01-01 00:00:00".to_string(), 0)));
    assert_eq!(format_ts_and_hour(1_700_000_000_000), Some(("2023-11-14 22:13:20".to_string(), 22)));
    assert_eq!(format_ts_and_hour(-1), Some(("1969-12-31 23:59:59".to_string(), 23)));
}

#[test]
fn format_ts_and_hour_refuses_unrepresentable_instants() {
    assert_eq!(format_ts_and_hour(i64::MAX), None);
    assert_eq!(format_ts_and_hour(i64::MIN), None);
}

#[test]
fn update_hour_histogram_counts_the_event_once_in_its_hour() {
    let mut h = init_hour_histogram();
    update_hour_histogram(&mut h, 1_700_000_000_000);
    update_hour_histogram(&mut h, 1_700_000_000_000 + 60_000);
    for (i, (hour, count)) in h.iter().enumerate() {
        assert_eq!(*hour, i as i64);
        assert_eq!(*count, if i == 22 { 2 } else { 0 });
    }
    let total: i64 = h.iter().map(|(_, c)| *c).sum();
    assert_eq!(total, 2);
}

#[test]
fn update_hour_histogram_ignores_unrepresentable_instants() {
    let mut h = init_hour_histogram();
    update_hour_histogram(&mut h, i64::MAX);
    assert!(h.iter().all(|(_, c)| *c == 0));
}

#[test]
fn histogram_with_event_leaves_its_input_alone() {
    let h = init_hour_histogram();
    let after = histogram_with_event(&h, 3 * 3_600_000);
    assert_eq!(after[3], (3, 1));
    assert_eq!(h[3], (3, 0));
}

#[test]
fn can_count_event_exec_sees_a_full_bucket() {
    let mut h = init_hour_histogram();
    assert!(can_count_event_exec(&h, 0));
    h[0].1 = i64::MAX;
    assert!(!can_count_event_exec(&h, 0));
    assert!(can_count_event_exec(&h, 3_600_000));
    assert!(can_count_event_exec(&Vec::new(), i64::MAX));
    assert!(!can_count_event_exec(&Vec::new(), 0));
}

#[test]
fn peak_hour_is_the_first_largest_count() {
    let mut h = init_hour_histogram();
    h[5].1 = 3;
    h[9].1 = 7;
    h[17].1 = 7;
    assert_eq!(get_peak_hour(&h), 9);
}

#[test]
fn peak_hour_of_an_empty_histogram_is_zero() {
    assert_eq!(get_peak_hour(&init_hour_histogram()), 0);
    assert_eq!(get_peak_hour(&Vec::new()), 0);
}

#[test]
fn night_owl_needs_more_than_a_third_of_activity_late() {
    let mut h = init_hour_histogram();
    h[10].1 = 2;
    h[23].1 = 1;
    assert!(!is_night_cat(&h));
    h[22].1 = 1;
    assert!(is_night_cat(&h));
    assert!(!is_night_cat(&init_hour_histogram()));
}

#[test]
fn night_sums_fit_detects_overflow() {
    let mut h = init_hour_histogram();
    assert!(night_sums_fit(&h));
    h[22].1 = i64::MAX / 2;
    assert!(!night_sums_fit(&h));
    h[22].1 = i64::MAX / 3;
    assert!(night_sums_fit(&h));
    h[1].1 = i64::MAX;
    assert!(!night_sums_fit(&h));
}

#[test]
fn set_user_hist_config_counts_existing_and_new_keys() {
    let mut hist = table(&[("/a", 2), ("/b", 1)]);
    let r = set_user_hist_config(&mut hist, "/b".to_string());
    assert_eq!(hist, table(&[("/a", 2), ("/b", 2)]));
    assert_eq!(r, hist);
    let r = set_user_hist_config(&mut hist, "/c".to_string());
    assert_eq!(hist, table(&[("/a", 2), ("/b", 2), ("/c", 1)]));
    assert_eq!(r, hist);
}

#[test]
fn set_user_hist_config_raises_only_the_first_row_of_a_key() {
    let mut hist = table(&[("/a", 1), ("/a", 5)]);
    set_user_hist_config(&mut hist, "/a".to_string());
    assert_eq!(hist, table(&[("/a", 2), ("/a", 5)]));
}

#[test]
fn can_count_exec_checks_the_first_row() {
    let hist = table(&[("/a", i64::MAX), ("/b", 1)]);
    assert!(!can_count_exec(&hist, "/a"));
    assert!(can_count_exec(&hist, "/b"));
    assert!(can_count_exec(&hist, "/new"));
}

#[test]
fn copy_table_copies() {
    let hist = table(&[("x", 1), ("y", 2)]);
    assert_eq!(copy_table(&hist), hist);
}

#[test]
fn top_three_by_count_then_table_order() {
    let hist = table(&[("a", 1), ("b", 5), ("c", 3), ("d", 5), ("e", 3)]);
    assert_eq!(get_user_path_by_three(hist), vec!["b".to_string(), "d".to_string(), "c".to_string()]);
}

#[test]
fn top_three_of_a_short_table() {
    assert_eq!(get_user_path_by_three(table(&[("only", 1)])), vec!["only".to_string()]);
    assert_eq!(get_user_path_by_three(Vec::new()), Vec::<String>::new());
    assert_eq!(get_user_path_by_three(table(&[("x", 1), ("y", 2)])), vec!["y".to_string(), "x".to_string()]);
}

#[test]
fn device_model_is_unknown_without_device_parsers() {
    let ua = "Mozilla/5.0 (iPhone; CPU iPhone OS 16_0 like Mac OS X) AppleWebKit/605.1.15";
    assert_eq!(extract_device_model(ua), Some("unknown".to_string()));
    assert_eq!(device_hist_key(ua), "unknown");
    let mut hist = Vec::new();
    let r = set_user_device_hist(&mut hist, ua.to_string());
    assert_eq!(hist, table(&[("unknown", 1)]));
    assert_eq!(r, hist);
}

#[test]
fn platform_keys_follow_the_os() {
    let key = |os: &str, c: &str, s: &str| platform_hist_key(&(os.to_string(), c.to_string(), s.to_string()));
    assert_eq!(key("PC", "120", "17"), "PC_120");
    assert_eq!(key("IOS", "120", "17"), "IOS_17");
    assert_eq!(key("Android", "120", "17"), "Android_17");
    assert_eq!(key("Linux", "120", "17"), "Other_120_17");
    let mut hist = Vec::new();
    set_user_platform_hist(&mut hist, ("PC".to_string(), "120".to_string(), "".to_string()));
    set_user_platform_hist(&mut hist, ("PC".to_string(), "120".to_string(), "9".to_string()));
    assert_eq!(hist, table(&[("PC_120", 2)]));
}
