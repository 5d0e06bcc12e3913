use point_monitor::model::{DataPointEventType, InnerData, InnerEvent, Properties, RedisStorageEventInfo};
use point_monitor::sessions::{
    batch_ready, build_session_event, build_storage_info, check_session_required_fields, next_session_id,
    place_in_session, redis_session_key, session_gap_fits, SessionBatch,
};

fn props(person: Option<&str>) -> Properties {
    Properties {
        timezone_offset: Some(-480),
        screen_height: Some(1080),
        screen_width: Some(1920),
        viewport_height: Some(900),
        viewport_width: Some(1600),
        lib: Some("js".to_string()),
        lib_version: Some("1.0".to_string()),
        usr_device: Some("Mozilla/5.0".to_string()),
        project: Some("proj".to_string()),
        project_name: Some("Project".to_string()),
        project_id: Some("p-1".to_string()),
        person_id: person.map(|p| p.to_string()),
        evt_id: Some("evt-9".to_string()),
        platform: Some("PC".to_string()),
        chrome_version: Some("120".to_string()),
        safari_version: None,
        lark: Some("lark".to_string()),
        referrer: None,
        url: Some("https://example.com/a".to_string()),
        url_path: Some("/a".to_string()),
        title: Some("A".to_string()),
        is_first_day: Some(true),
        is_first_time: Some(false),
        referrer_host: None,
        event_duration: Some(12),
    }
}

fn inner(person: Option<&str>, event: Option<&str>, project: Option<&str>, time: Option<i64>) -> InnerEvent {
    InnerEvent {
        project: project.map(|p| p.to_string()),
        server_time: None,
        data: Some(InnerData {
            identities: None,
            distinct_id: None,
            lib: None,
            properties: Some(props(person)),
            anonymous_id: None,
            ty: Some("track".to_string()),
            event: event.map(|e| e.to_string()),
            time,
            _track_id: None,
            _flush_time: None,
        }),
        token: None,
        ip: None,
    }
}

fn stored(session: &str, time: i64) -> RedisStorageEventInfo {
    RedisStorageEventInfo {
        session_id: session.to_string(),
        person_id: "u1".to_string(),
        last_activity_time: time,
        event_type: DataPointEventType::Pageview,
        project: "proj".to_string(),
    }
}

#[test]
fn required_fields_all_present() {
    let c = check_session_required_fields(&inner(Some("u1"), Some("$pageview"), Some("proj"), Some(10)));
    assert_eq!(c, (true, Some("u1".to_string()), Some("$pageview".to_string()), Some("proj".to_string()), Some(10)));
}

#[test]
fn required_fields_missing_or_empty_person() {
    let c = check_session_required_fields(&inner(Some(""), Some("$pageview"), Some("proj"), Some(10)));
    assert_eq!(c, (false, None, Some("$pageview".to_string()), Some("proj".to_string()), Some(10)));
    let c = check_session_required_fields(&inner(Some("u1"), None, Some("proj"), None));
    assert_eq!(c, (false, Some("u1".to_string()), None, Some("proj".to_string()), None));
    let empty = InnerEvent { project: None, server_time: None, data: None, token: None, ip: None };
    assert_eq!(check_session_required_fields(&empty), (false, None, None, None, None));
}

#[test]
fn session_key_names_the_person() {
    assert_eq!(redis_session_key(&Some("u1".to_string())), "session:u1:last_active");
    assert_eq!(redis_session_key(&None), "session::last_active");
}

#[test]
fn session_continues_within_the_timeout() {
    let s = Some(stored("sess-1", 1_000));
    // event times are in milliseconds, the timeout in seconds
    assert_eq!(next_session_id(&s, Some(1_000 + 1_800_000), 1_800), "sess-1");
    assert_eq!(next_session_id(&s, Some(500), 1_800), "sess-1");
    // a 500 ms gap stays within a one-second timeout
    assert_eq!(next_session_id(&s, Some(1_500), 1), "sess-1");
}

#[test]
fn session_renews_after_the_timeout_or_without_memory() {
    let s = Some(stored("sess-1", 1_000));
    let renewed = next_session_id(&s, Some(1_000 + 1_800_001), 1_800);
    assert_ne!(renewed, "sess-1");
    assert_eq!(renewed.len(), 36);
    for (i, c) in renewed.chars().enumerate() {
        if i == 8 || i == 13 || i == 18 || i == 23 {
            assert_eq!(c, '-');
        } else {
            assert!(c.is_ascii_digit() || ('a'..='f').contains(&c));
        }
    }
    assert_eq!(renewed.chars().nth(14), Some('4'));
    assert!(matches!(renewed.chars().nth(19), Some('8' | '9' | 'a' | 'b')));
    let fresh = next_session_id(&None, Some(5), 1_800);
    assert_eq!(fresh.len(), 36);
    assert_ne!(next_session_id(&None, Some(5), 1_800), fresh);
}

#[test]
fn gap_fits_is_checked() {
    assert!(session_gap_fits(&None, Some(i64::MIN)));
    assert!(session_gap_fits(&Some(stored("s", 0)), Some(i64::MAX)));
    assert!(!session_gap_fits(&Some(stored("s", -1)), Some(i64::MAX)));
    assert!(!session_gap_fits(&Some(stored("s", 1)), Some(i64::MIN)));
}

#[test]
fn session_event_takes_checked_fields_and_properties() {
    let msg = inner(Some("u1"), Some("$WebClick"), Some("proj"), Some(77));
    let c = check_session_required_fields(&msg);
    let e = build_session_event(&msg, &c, "sess-9".to_string());
    assert_eq!(e.session_id, "sess-9");
    assert_eq!(e.project_code, "proj");
    assert_eq!(e.project_id, "p-1");
    assert_eq!(e.project_name, "Project");
    assert_eq!(e.event_type, DataPointEventType::WebClick);
    assert_eq!(e.event_time, 77);
    assert_eq!(e.screen_width, Some(1920));
    assert_eq!(e.viewport_height, Some(900));
    assert_eq!(e.person_code, "u1");
    assert_eq!(e.event_id, "evt-9");
    assert_eq!(e.event_platform, "PC");
    assert_eq!(e.event_chrome_version, "120");
    assert_eq!(e.event_safari_version, "");
    assert_eq!(e.event_cttq_lark, "lark");
    assert_eq!(e.event_url, "https://example.com/a");
    assert_eq!(e.event_url_path, "/a");
    assert_eq!(e.event_page_title, "A");
    assert_eq!(e.event_referrer_host, "");
    assert_eq!(e.event_duration, Some(12));
    assert_eq!(e.usr_device, "Mozilla/5.0");
}

#[test]
fn storage_info_remembers_the_latest_event() {
    let msg = inner(Some("u1"), Some("Exposure"), Some("proj"), Some(5));
    let c = check_session_required_fields(&msg);
    let r = build_storage_info(&c, "sess-2".to_string());
    assert_eq!(r.session_id, "sess-2");
    assert_eq!(r.person_id, "u1");
    assert_eq!(r.last_activity_time, 5);
    assert_eq!(r.event_type, DataPointEventType::Exposure);
    assert_eq!(r.project, "proj");
}

#[test]
fn placement_reuses_or_opens_a_session() {
    let msg = inner(Some("u1"), Some("$pageview"), Some("proj"), Some(2_000));
    let c = check_session_required_fields(&msg);
    let p = place_in_session(&msg, &c, &Some(stored("sess-1", 1_000)), 1_800);
    assert_eq!(p.event.session_id, "sess-1");
    assert_eq!(p.remembered.session_id, "sess-1");
    assert_eq!(p.remembered.last_activity_time, 2_000);
    let p = place_in_session(&msg, &c, &Some(stored("sess-1", 100)), 1);
    assert_ne!(p.event.session_id, "sess-1");
    assert_eq!(p.event.session_id, p.remembered.session_id);
}

#[test]
fn batches_are_due_when_full_or_late() {
    assert!(batch_ready(10, 10, 0, 60));
    assert!(batch_ready(0, 10, 60, 60));
    assert!(!batch_ready(9, 10, 59, 60));
}

#[test]
fn session_batch_groups_events_by_person() {
    let msg = inner(Some("u1"), Some("$pageview"), Some("proj"), Some(1));
    let c = check_session_required_fields(&msg);
    let e1 = build_session_event(&msg, &c, "s1".to_string());
    let e2 = build_session_event(&msg, &c, "s2".to_string());
    let e3 = build_session_event(&msg, &c, "s3".to_string());
    let mut batch = SessionBatch::new();
    assert!(batch.groups().is_empty());
    batch.push("u1".to_string(), e1);
    batch.push("u2".to_string(), e2);
    batch.push("u1".to_string(), e3);
    let groups = batch.groups();
    assert_eq!(groups.len(), 2);
    assert_eq!(groups[0].0, "u1");
    assert_eq!(groups[0].1.iter().map(|e| e.session_id.clone()).collect::<Vec<_>>(), vec!["s1", "s3"]);
    assert_eq!(groups[1].0, "u2");
    assert_eq!(groups[1].1.len(), 1);
}
