use point_monitor::model::{apply_sessions, DataPointEventType, SessionEventInfo, SessionEventRecord, UserFeatureVector};

fn event(session: &str, person: &str, time: i64, kind: DataPointEventType, path: &str) -> SessionEventInfo {
    SessionEventInfo {
        session_id: session.to_string(),
        project_code: "proj".to_string(),
        project_id: "p1".to_string(),
        project_name: "Project".to_string(),
        event_type: kind,
        event_time: time,
        screen_width: Some(1920),
        screen_height: Some(1080),
        viewport_width: None,
        viewport_height: None,
        person_code: person.to_string(),
        event_id: "e".to_string(),
        event_platform: "PC".to_string(),
        event_chrome_version: "120".to_string(),
        event_safari_version: "".to_string(),
        event_cttq_lark: "lark-a".to_string(),
        event_refferer: "".to_string(),
        event_url: format!("https://example.com{}", path),
        event_url_path: path.to_string(),
        event_page_title: "Title".to_string(),
        event_referrer_host: "".to_string(),
        event_duration: Some(30),
        usr_device: "Mozilla/5.0".to_string(),
    }
}

#[test]
fn event_type_names_round_trip() {
    let all = [
        DataPointEventType::Pageview,
        DataPointEventType::WebPageLeave,
        DataPointEventType::CountEvent,
        DataPointEventType::Exposure,
        DataPointEventType::WebClick,
        DataPointEventType::Unknown,
    ];
    for t in all {
        assert_eq!(DataPointEventType::from_str(t.as_str()), t);
    }
    assert_eq!(DataPointEventType::Pageview.as_str(), "$pageview");
    assert_eq!(DataPointEventType::WebPageLeave.as_str(), "$WebPageLeave");
    assert_eq!(DataPointEventType::CountEvent.as_str(), "countEvent");
    assert_eq!(DataPointEventType::Exposure.as_str(), "Exposure");
    assert_eq!(DataPointEventType::WebClick.as_str(), "$WebClick");
    assert_eq!(DataPointEventType::Unknown.as_str(), "Unknown");
}

#[test]
fn unrecognised_event_names_are_unknown() {
    assert_eq!(DataPointEventType::from_str("pageview"), DataPointEventType::Unknown);
    assert_eq!(DataPointEventType::from_str(""), DataPointEventType::Unknown);
}

#[test]
fn new_profile_is_empty() {
    let f = UserFeatureVector::new("u1".to_string());
    assert_eq!(f.user_id, "u1");
    assert_eq!(f.timestamp, 0);
    assert_eq!(f.total_sessions, 0);
    assert_eq!(f.hours_hist.len(), 24);
    assert_eq!(f.preferred_hour, 0);
    assert!(!f.is_night_owl);
    assert!(f.path_hist.is_empty());
    assert_eq!(f.preferred_lark_type, "");
}

#[test]
fn update_with_session_counts_and_ranks() {
    let mut f = UserFeatureVector::new("u1".to_string());
    let t0 = 1_700_000_000_000; // 22:13 UTC
    f.update_with_session(&event("s1", "u1", t0, DataPointEventType::Pageview, "/home"));
    assert_eq!(f.timestamp, t0);
    assert_eq!(f.active_days, 1);
    assert_eq!(f.total_sessions, 1);
    assert_eq!(f.total_events, 1);
    assert_eq!(f.total_pageviews, 1);
    assert_eq!(f.total_pageview_duration_secs, 30);
    assert_eq!(f.hours_hist[22], (22, 1));
    assert_eq!(f.preferred_hour, 22);
    assert!(f.is_night_owl);
    assert_eq!(f.path_hist, vec![("/home".to_string(), 1)]);
    assert_eq!(f.favorite_page_categories, vec!["/home".to_string()]);
    assert_eq!(f.user_device_hist, vec![("unknown".to_string(), 1)]);
    assert_eq!(f.user_platform_hist, vec![("PC_120".to_string(), 1)]);
    assert_eq!(f.favorite_device_types, vec!["unknown".to_string()]);
    assert_eq!(f.user_lark_hist, vec![("lark-a".to_string(), 1)]);
    assert_eq!(f.preferred_lark_type, "lark-a");

    let t1 = t0 + 2 * 86_400_000 - 12 * 3_600_000; // 1.5 days later, 10:13 UTC
    f.update_with_session(&event("s2", "u1", t1, DataPointEventType::WebClick, "/cart"));
    f.update_with_session(&event("s2", "u1", t1 + 1000, DataPointEventType::CountEvent, "/cart"));
    assert_eq!(f.timestamp, t0);
    assert_eq!(f.active_days, 1);
    assert_eq!(f.total_sessions, 3);
    assert_eq!(f.total_clicks, 2);
    assert_eq!(f.total_pageviews, 1);
    assert_eq!(f.hours_hist[10], (10, 2));
    assert_eq!(f.preferred_hour, 10);
    assert!(!f.is_night_owl);
    assert_eq!(f.favorite_page_categories, vec!["/cart".to_string(), "/home".to_string()]);
    assert!(f.search_history.is_empty());
}

#[test]
fn active_days_count_whole_days_since_the_first_session() {
    let mut f = UserFeatureVector::new("u1".to_string());
    f.update_with_session(&event("s1", "u1", 1_000, DataPointEventType::Exposure, "/a"));
    f.update_with_session(&event("s2", "u1", 1_000 + 3 * 86_400_000, DataPointEventType::WebPageLeave, "/a"));
    assert_eq!(f.active_days, 3);
    assert_eq!(f.total_exposures, 1);
    assert_eq!(f.total_web_page_leaves, 1);
}

#[test]
fn try_update_refuses_an_overflowing_counter() {
    let mut f = UserFeatureVector::new("u1".to_string());
    f.total_sessions = u64::MAX;
    let before_events = f.total_events;
    assert!(!f.try_update_with_session(&event("s1", "u1", 0, DataPointEventType::Pageview, "/a")));
    assert_eq!(f.total_events, before_events);
    assert!(f.path_hist.is_empty());

    let mut g = UserFeatureVector::new("u2".to_string());
    g.total_pageview_duration_secs = u64::MAX - 10;
    assert!(!g.can_apply(&event("s1", "u2", 0, DataPointEventType::Pageview, "/a")));
    g.total_pageview_duration_secs = 0;
    assert!(g.can_apply(&event("s1", "u2", 0, DataPointEventType::Pageview, "/a")));
    assert!(g.try_update_with_session(&event("s1", "u2", 0, DataPointEventType::Pageview, "/a")));
    assert_eq!(g.total_sessions, 1);
}

#[test]
fn apply_sessions_applies_in_order() {
    let f = UserFeatureVector::new("u1".to_string());
    let sessions = vec![
        event("s1", "u1", 1_000, DataPointEventType::Pageview, "/a"),
        event("s1", "u1", 2_000, DataPointEventType::Pageview, "/b"),
        event("s1", "u1", 3_000, DataPointEventType::Pageview, "/b"),
    ];
    let g = apply_sessions(f, &sessions).expect("applicable");
    assert_eq!(g.total_sessions, 3);
    assert_eq!(g.path_hist, vec![("/a".to_string(), 1), ("/b".to_string(), 2)]);
    assert_eq!(g.favorite_page_categories, vec!["/b".to_string(), "/a".to_string()]);
}

#[test]
fn apply_sessions_stops_at_an_inapplicable_session() {
    let mut f = UserFeatureVector::new("u1".to_string());
    f.total_events = u64::MAX - 1;
    let sessions = vec![
        event("s1", "u1", 1_000, DataPointEventType::Pageview, "/a"),
        event("s1", "u1", 2_000, DataPointEventType::Pageview, "/b"),
    ];
    assert!(apply_sessions(f, &sessions).is_none());
}

#[test]
fn session_record_keeps_fields_and_names_the_type() {
    let e = event("s1", "u1", 42, DataPointEventType::WebClick, "/x");
    let r = SessionEventRecord::from(e);
    assert_eq!(r.session_id, "s1");
    assert_eq!(r.event_type, "$WebClick");
    assert_eq!(r.event_time, 42);
    assert_eq!(r.event_duration, Some(30));
    assert_eq!(r.event_url_path, "/x");
    assert_eq!(r.screen_width, Some(1920));
    let mut big = event("s1", "u1", 42, DataPointEventType::Pageview, "/x");
    big.event_duration = Some(u64::MAX);
    assert_eq!(SessionEventRecord::from(big).event_duration, Some(-1));
}

#[test]
fn updates_keep_the_hour_histogram_layout() {
    let mut f = UserFeatureVector::new("u1".to_string());
    // 1970-01-01 05:00:00 UTC, then 23:30 of the next day
    f.update_with_session(&event("s1", "u1", 5 * 3_600_000, DataPointEventType::Pageview, "/a"));
    f.update_with_session(&event("s2", "u1", 86_400_000 + 23 * 3_600_000 + 1_800_000, DataPointEventType::Pageview, "/b"));
    assert_eq!(f.hours_hist.len(), 24);
    for (i, (hour, count)) in f.hours_hist.iter().enumerate() {
        assert_eq!(*hour, i as i64);
        let expected = if i == 5 || i == 23 { 1 } else { 0 };
        assert_eq!(*count, expected);
    }
    assert_eq!(f.preferred_hour, 5);
}
