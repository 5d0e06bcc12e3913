use point_monitor::aggregator::{browser_name, is_informative, RealTimeAggregator, WINDOW_SIZE_MS};
use point_monitor::model::{DataPointEventType, SessionEventInfo};

fn ev(session: &str, person: &str, time: i64, kind: DataPointEventType, path: &str, platform: &str, chrome: &str, safari: &str) -> SessionEventInfo {
    SessionEventInfo {
        session_id: session.to_string(),
        project_code: "proj".to_string(),
        project_id: "".to_string(),
        project_name: "".to_string(),
        event_type: kind,
        event_time: time,
        screen_width: None,
        screen_height: None,
        viewport_width: None,
        viewport_height: None,
        person_code: person.to_string(),
        event_id: "".to_string(),
        event_platform: platform.to_string(),
        event_chrome_version: chrome.to_string(),
        event_safari_version: safari.to_string(),
        event_cttq_lark: "".to_string(),
        event_refferer: "".to_string(),
        event_url: "".to_string(),
        event_url_path: path.to_string(),
        event_page_title: "".to_string(),
        event_referrer_host: "".to_string(),
        event_duration: None,
        usr_device: "".to_string(),
    }
}

fn pairs(rows: &[(&str, usize)]) -> Vec<(String, usize)> {
    rows.iter().map(|(k, c)| (k.to_string(), *c)).collect()
}

#[test]
fn window_is_five_minutes() {
    assert_eq!(WINDOW_SIZE_MS, 5 * 60 * 1000);
}

#[test]
fn informative_texts() {
    assert!(is_informative(&"120".to_string()));
    assert!(!is_informative(&"".to_string()));
    assert!(!is_informative(&"-".to_string()));
}

#[test]
fn browser_attribution() {
    assert_eq!(browser_name(&ev("s", "p", 0, DataPointEventType::Pageview, "/", "PC", "120", "")), "Chrome");
    assert_eq!(browser_name(&ev("s", "p", 0, DataPointEventType::Pageview, "/", "PC", "-", "17")), "Safari");
    assert_eq!(browser_name(&ev("s", "p", 0, DataPointEventType::Pageview, "/", "MyAndroid", "", "")), "Android Webview");
    assert_eq!(browser_name(&ev("s", "p", 0, DataPointEventType::Pageview, "/", "iOS", "-", "-")), "Safari Mobile");
    assert_eq!(browser_name(&ev("s", "p", 0, DataPointEventType::Pageview, "/", "PC", "", "")), "Other");
}

#[test]
fn metrics_of_an_empty_window() {
    let mut agg = RealTimeAggregator::new();
    let m = agg.calculate_metrics();
    assert_eq!(m.total_events, 0);
    assert_eq!(m.active_users, 0);
    assert_eq!(m.session_count, 0);
    assert_eq!(m.total_session_duration, 0);
    assert_eq!(m.total_session_depth, 0);
    assert!(m.device_distribution.is_empty());
    assert!(m.popular_paths.is_empty());
}

#[test]
fn metrics_describe_users_sessions_and_paths() {
    let mut agg = RealTimeAggregator::new();
    agg.add_event(ev("s1", "p1", 2_000, DataPointEventType::Pageview, "/b", "PC", "120", ""));
    agg.add_event(ev("s1", "p1", 1_000, DataPointEventType::Pageview, "/a", "PC", "120", ""));
    agg.add_event(ev("s2", "p2", 1_500, DataPointEventType::WebClick, "/c", "Android", "", ""));
    agg.add_event(ev("s1", "p1", 3_000, DataPointEventType::WebClick, "-", "PC", "120", ""));
    let m = agg.calculate_metrics();
    assert_eq!(m.total_events, 4);
    assert_eq!(m.active_users, 2);
    assert_eq!(m.session_count, 2);
    // s1 spans 1000..3000, s2 a single event
    assert_eq!(m.total_session_duration, 2_000);
    assert_eq!(m.total_session_depth, 2);
    assert_eq!(m.device_distribution, pairs(&[("PC", 3), ("Android", 1)]));
    assert_eq!(m.browser_distribution, pairs(&[("Chrome", 3), ("Android Webview", 1)]));
    assert_eq!(m.version_distribution, pairs(&[("120", 3)]));
    // entry of s1 is its earliest event, exit its latest ("-" is no page)
    assert_eq!(m.common_entry_pages, pairs(&[("/a", 1), ("/c", 1)]));
    assert_eq!(m.common_exit_pages, pairs(&[("/c", 1)]));
    assert_eq!(m.popular_paths, pairs(&[("/a -> /b", 1)]));
}

#[test]
fn sessions_with_the_same_path_share_a_count() {
    let mut agg = RealTimeAggregator::new();
    agg.add_event(ev("s1", "p1", 0, DataPointEventType::Pageview, "/x", "PC", "", ""));
    agg.add_event(ev("s2", "p1", 10, DataPointEventType::Pageview, "/x", "PC", "", ""));
    let m = agg.calculate_metrics();
    assert_eq!(m.active_users, 1);
    assert_eq!(m.session_count, 2);
    assert_eq!(m.popular_paths, pairs(&[("/x", 2)]));
    assert_eq!(m.common_entry_pages, pairs(&[("/x", 2)]));
    assert_eq!(m.browser_distribution, pairs(&[("Other", 2)]));
    assert!(m.version_distribution.is_empty());
}

#[test]
fn pruning_drops_events_older_than_the_window_before_the_latest() {
    let mut agg = RealTimeAggregator::new();
    agg.add_event(ev("old", "p0", 0, DataPointEventType::Pageview, "/old", "PC", "", ""));
    agg.add_event(ev("s1", "p1", 400_000, DataPointEventType::Pageview, "/new", "PC", "", ""));
    agg.add_event(ev("s2", "p2", 1_000_000, DataPointEventType::Pageview, "/latest", "PC", "", ""));
    let m = agg.calculate_metrics();
    assert_eq!(m.total_events, 1);
    assert_eq!(m.active_users, 1);
    let again = agg.calculate_metrics();
    assert_eq!(again.total_events, 1);
}

#[test]
fn pruning_stops_at_the_first_recent_event() {
    let mut agg = RealTimeAggregator::new();
    agg.add_event(ev("a", "p", 900_000, DataPointEventType::Pageview, "/a", "PC", "", ""));
    agg.add_event(ev("b", "p", 0, DataPointEventType::Pageview, "/b", "PC", "", ""));
    agg.add_event(ev("c", "p", 1_000_000, DataPointEventType::Pageview, "/c", "PC", "", ""));
    agg.prune_events();
    let m = agg.calculate_metrics();
    // the stale event behind a recent one stays
    assert_eq!(m.total_events, 3);
}

#[test]
fn the_window_ends_at_the_latest_event_time() {
    let mut agg = RealTimeAggregator::new();
    agg.add_event(ev("a", "p", 100, DataPointEventType::Pageview, "/a", "PC", "", ""));
    agg.add_event(ev("b", "p", 400_000, DataPointEventType::Pageview, "/b", "PC", "", ""));
    agg.add_event(ev("c", "p", 0, DataPointEventType::Pageview, "/c", "PC", "", ""));
    agg.prune_events();
    let m = agg.calculate_metrics();
    // the cutoff is 400_000 - 300_000: the event at 100 goes, the one at 0
    // behind a recent one stays
    assert_eq!(m.total_events, 2);
    assert_eq!(m.session_count, 2);
}

#[test]
fn try_calculate_metrics_refuses_an_uncomputable_cutoff() {
    let mut agg = RealTimeAggregator::new();
    agg.add_event(ev("a", "p", i64::MIN, DataPointEventType::Pageview, "/a", "PC", "", ""));
    assert!(agg.try_calculate_metrics().is_none());
}

#[test]
fn try_calculate_metrics_refuses_an_overflowing_span() {
    let mut agg = RealTimeAggregator::new();
    agg.add_event(ev("a", "p", i64::MIN + 300_000, DataPointEventType::Pageview, "/a", "PC", "", ""));
    agg.add_event(ev("b", "p", i64::MAX, DataPointEventType::Pageview, "/b", "PC", "", ""));
    // the first event falls out of the window; the other's span is 0
    let m = agg.try_calculate_metrics().expect("fits");
    assert_eq!(m.total_events, 1);
    assert_eq!(m.total_session_duration, 0);
    let mut agg = RealTimeAggregator::new();
    agg.add_event(ev("a", "p", i64::MAX, DataPointEventType::Pageview, "/a", "PC", "", ""));
    agg.add_event(ev("a", "p", i64::MIN + 300_000, DataPointEventType::Pageview, "/b", "PC", "", ""));
    // both stay (the first-arrived event holds the latest time); the span overflows
    assert!(agg.try_calculate_metrics().is_none());
    let mut agg = RealTimeAggregator::new();
    agg.add_event(ev("a", "p", -5, DataPointEventType::Pageview, "/a", "PC", "", ""));
    agg.add_event(ev("a", "p", i64::MAX - 1, DataPointEventType::Pageview, "/b", "PC", "", ""));
    agg.add_event(ev("a", "p", i64::MAX, DataPointEventType::Pageview, "/c", "PC", "", ""));
    // pruning drops the event at -5; the span is then 1
    let m = agg.try_calculate_metrics().expect("fits");
    assert_eq!(m.total_session_duration, 1);
}
