use point_monitor::db_models::{check_result_record, MonitorConfigModel};
use point_monitor::http_monitor::{
    check_security_headers_ok, content_patterns_compile, create_advanced_availability_result, create_basic_result,
    create_content_verification_result, create_failed_result, create_headers_result, create_performance_timings,
    http_send_failed_result, http_success_result, http_wrong_config_result, plan_http_check, record_http_response,
    try_http_success_result, ConnectionFacts, HttpCheckPlan, HttpResponseFacts,
};
use point_monitor::monitor_types::{
    copy_opt_text, CheckResultDetail, HttpMonitorConfig, MonitorConfig, MonitorConfigDetail, UnknownQueryConfig,
    UnknownQueryResult,
};
use point_monitor::monitors::{
    CpuMonitor, DiskMonitor, DnsMonitor, FtpMonitor, IcmpMonitor, MemoryMonitor, ProcessMonitor, TcpMonitor,
    TracerouteMonitor, UdpMonitor, UnknowMonitor,
};
use point_monitor::tools_types::{
    convert_to_monitor_config, filter_valid_headers, ContentVerificationRules, ContentVerificationRulesSingle,
    HttpMethodTypes, HttpMonitorResult, MonitorType, SelfDefineMonitorConfig, StatusCategory, StatusInfo,
};

fn http_config(target: Option<&str>, rules: Option<Vec<ContentVerificationRulesSingle>>) -> MonitorConfig {
    MonitorConfig {
        target: target.map(|t| t.to_string()),
        interval: Some(30),
        monitor_type: MonitorType::Http,
        details: MonitorConfigDetail::Http(HttpMonitorConfig {
            url: target.unwrap_or("").to_string(),
            method: HttpMethodTypes::Get,
            timeout: 10,
            headers: None,
            body: None,
            rules,
            alert_config: None,
        }),
    }
}

fn rule(kind: ContentVerificationRules, content: &str) -> ContentVerificationRulesSingle {
    ContentVerificationRulesSingle { rule_type: kind, rule_content: content.to_string(), rule_description: format!("{:?}", kind) }
}

fn headers(rows: &[(&str, Option<&str>)]) -> Vec<(String, Option<String>)> {
    rows.iter().map(|(k, v)| (k.to_string(), v.map(|x| x.to_string()))).collect()
}

fn model(monitor_type: &str) -> MonitorConfigModel {
    MonitorConfigModel {
        id: 7,
        name: Some("site".to_string()),
        target: "https://example.com".to_string(),
        method: None,
        monitor_type: monitor_type.to_string(),
        interval_ms: None,
        timeout_ms: 1000,
        config_json: None,
        enabled: 1,
        tag: None,
        created_at: None,
        updated_at: None,
    }
}

#[test]
fn monitor_type_names() {
    assert_eq!(MonitorType::Icmp.to_string(), "ICMP");
    assert_eq!(MonitorType::Http.to_string(), "HTTP");
    assert_eq!(MonitorType::Traceroute.to_string(), "TRACEROUTE");
    assert_eq!(MonitorType::Unknown.to_string(), "UNKNOWN");
}

#[test]
fn status_categories_by_hundreds() {
    assert_eq!(StatusCategory::from_status_code(100), StatusCategory::Informational);
    assert_eq!(StatusCategory::from_status_code(204), StatusCategory::Success);
    assert_eq!(StatusCategory::from_status_code(301), StatusCategory::Redirection);
    assert_eq!(StatusCategory::from_status_code(404), StatusCategory::ClientError);
    assert_eq!(StatusCategory::from_status_code(599), StatusCategory::ServerError);
    assert_eq!(StatusCategory::from_status_code(600), StatusCategory::Unknown);
    assert_eq!(StatusCategory::from_status_code(99), StatusCategory::Unknown);
    assert_eq!(StatusCategory::default(), StatusCategory::Unknown);
}

#[test]
fn simple_monitors_report_success_for_their_target() {
    let config = http_config(Some("host.example"), None);
    let results = vec![
        (CpuMonitor::new().check(&config), CpuMonitor::new().get_type(), MonitorType::Cpu),
        (DiskMonitor::new().check(&config), DiskMonitor::new().get_type(), MonitorType::Disk),
        (DnsMonitor::new().check(&config), DnsMonitor::new().get_type(), MonitorType::Dns),
        (FtpMonitor::new().check(&config), FtpMonitor::new().get_type(), MonitorType::Ftp),
        (IcmpMonitor::new().check(&config), IcmpMonitor::new().get_type(), MonitorType::Icmp),
        (MemoryMonitor::new().check(&config), MemoryMonitor::new().get_type(), MonitorType::Memory),
        (ProcessMonitor::new().check(&config), ProcessMonitor::new().get_type(), MonitorType::Process),
        (TcpMonitor::new().check(&config), TcpMonitor::new().get_type(), MonitorType::Tcp),
        (TracerouteMonitor::new().check(&config), TracerouteMonitor::new().get_type(), MonitorType::Traceroute),
        (UdpMonitor::new().check(&config), UdpMonitor::new().get_type(), MonitorType::Udp),
    ];
    for (r, t, expected) in results {
        assert_eq!(t, expected);
        assert_eq!(r.monitor_type, expected);
        assert!(r.status);
        assert_eq!(r.target.as_deref(), Some("host.example"));
    }
    let a = CpuMonitor::new().check(&config);
    let b = CpuMonitor::new().check(&config);
    assert_ne!(a.id, b.id);
    assert!(matches!(a.details, CheckResultDetail::Cpu(_)));
}

#[test]
fn unknown_monitor_reports_an_unknown_kind() {
    let config = http_config(Some("x"), None);
    let r = UnknowMonitor::new().check(&config);
    assert_eq!(UnknowMonitor::new().get_type(), MonitorType::Unknown);
    assert_eq!(r.monitor_type, MonitorType::Unknown);
    assert!(matches!(r.details, CheckResultDetail::Unknown(_)));
    let d = UnknownQueryResult::default();
    assert_eq!(d.description, "No description");
    assert_eq!(d.query_type, MonitorType::Unknown);
}

#[test]
fn security_headers_need_four_of_seven() {
    let three = headers(&[
        ("strict-transport-security", Some("max-age=1")),
        ("x-frame-options", Some("DENY")),
        ("feature-policy", Some("none")),
        ("referrer-policy", None),
    ]);
    assert!(!check_security_headers_ok(&three));
    let mut four = three.clone();
    four.push(("permissions-policy".to_string(), Some("x".to_string())));
    assert!(check_security_headers_ok(&four));
    let s = create_headers_result(&four);
    assert_eq!(s.strict_transport_security.as_deref(), Some("max-age=1"));
    assert_eq!(s.referrer_policy.as_deref(), Some(""));
    assert_eq!(s.feature_policy.as_deref(), Some("none"));
    assert_eq!(s.content_security_policy, None);
    assert!(s.security_headers_ok);
}

#[test]
fn basic_result_reads_status_and_headers() {
    let hs = headers(&[("content-type", Some("text/html")), ("accept-charset", None)]);
    let b = create_basic_result(503, "HTTP/1.1".to_string(), &hs, None);
    assert!(b.is_reachable && b.dns_resolvable && b.tcp_connect_success && b.res_received);
    assert_eq!(b.res_status_code, Some(503));
    assert_eq!(b.res_status_category, StatusCategory::ServerError);
    assert_eq!(b.protocol_version, "HTTP/1.1");
    assert_eq!(b.res_content_type.as_deref(), Some("text/html"));
    assert_eq!(b.res_content_length, 0);
    assert_eq!(b.res_charset, None);
}

#[test]
fn performance_timings_record_total_and_start() {
    let p = create_performance_timings(250, 1_700_000_000_000);
    assert_eq!(p.total_time, 250);
    assert_eq!(p.response_receiving_time, 250);
    assert_eq!(p.request_sending_time, 1_700_000_000_000);
    assert_eq!(p.dns_lookup_time, 0);
    assert!(p.ssl_cert_valid);
    assert!(create_advanced_availability_result().bussiness_metrics.is_empty());
}

#[test]
fn content_rules_split_into_matched_and_failed() {
    let rules = Some(vec![
        rule(ContentVerificationRules::Contains, "hello"),
        rule(ContentVerificationRules::NotContains, "error"),
        rule(ContentVerificationRules::Regex, r"wor.d"),
        rule(ContentVerificationRules::Contains, "absent"),
        rule(ContentVerificationRules::Default, "hello"),
    ]);
    assert!(content_patterns_compile(&rules));
    let r = create_content_verification_result("hello world".to_string(), &rules);
    let matched: Vec<_> = r.match_rules.iter().map(|x| x.rules.rule_content.clone()).collect();
    let failed: Vec<_> = r.failed_rules.iter().map(|x| x.rules.rule_content.clone()).collect();
    assert_eq!(matched, vec!["hello", "error", "wor.d"]);
    assert_eq!(failed, vec!["absent", "hello"]);
    assert!(r.match_rules.iter().all(|x| x.status == StatusInfo::Success && x.message == "Rule verification passed"));
    assert!(r.failed_rules.iter().all(|x| x.status == StatusInfo::Failed && x.message == "Rule verification failed"));
}

#[test]
fn content_rules_skip_an_empty_body_or_missing_rules() {
    let rules = Some(vec![rule(ContentVerificationRules::NotContains, "x")]);
    let r = create_content_verification_result(String::new(), &rules);
    assert!(r.match_rules.is_empty() && r.failed_rules.is_empty());
    let r = create_content_verification_result("body".to_string(), &None);
    assert!(r.match_rules.is_empty() && r.failed_rules.is_empty());
    let bad = Some(vec![rule(ContentVerificationRules::Regex, "(unclosed")]);
    let r = create_content_verification_result(String::new(), &bad);
    assert!(r.match_rules.is_empty() && r.failed_rules.is_empty());
}

#[test]
fn bad_patterns_are_detected() {
    let rules = Some(vec![rule(ContentVerificationRules::Regex, "(unclosed")]);
    assert!(!content_patterns_compile(&rules));
    assert!(content_patterns_compile(&None));
}

#[test]
fn plans_follow_target_and_settings() {
    assert_eq!(plan_http_check(&http_config(None, None)), HttpCheckPlan::Fail);
    assert_eq!(plan_http_check(&http_config(Some("not a url"), None)), HttpCheckPlan::Fail);
    assert_eq!(plan_http_check(&http_config(Some("https://example.com"), None)), HttpCheckPlan::Send);
    let mut other = http_config(Some("https://example.com"), None);
    other.details = MonitorConfigDetail::Unknown(UnknownQueryConfig { description: "x".to_string() });
    assert_eq!(plan_http_check(&other), HttpCheckPlan::WrongConfig);
}

#[test]
fn failed_and_wrong_config_results() {
    let f = create_failed_result("Missing target URL");
    assert_eq!(f.monitor_type, MonitorType::Http);
    assert!(!f.status);
    assert_eq!(f.target, None);
    match f.details {
        CheckResultDetail::Http(h) => {
            assert!(!h.basic_avaliable.is_reachable);
            assert_eq!(h.basic_avaliable.res_status_category, StatusCategory::Unknown);
        },
        _ => panic!("expected HTTP details"),
    }
    let w = http_wrong_config_result();
    assert!(!w.status);
    match w.details {
        CheckResultDetail::Unknown(u) => {
            assert_eq!(u.query_type, MonitorType::Http);
            assert_eq!(u.description, "调用监控类型: HTTP, 请查实后再继续操作");
        },
        _ => panic!("expected unknown details"),
    }
    let s = http_send_failed_result(&http_config(Some("https://example.com"), None));
    assert!(s.status);
    assert_eq!(s.target.as_deref(), Some("https://example.com"));
}

fn facts(body: &str) -> HttpResponseFacts {
    HttpResponseFacts {
        status_code: 200,
        protocol_version: "HTTP/2.0".to_string(),
        headers: headers(&[("content-type", Some("text/plain"))]),
        content_length: Some(11),
        body: body.to_string(),
    }
}

fn conn() -> ConnectionFacts {
    ConnectionFacts { dns_lookup_time: 3, tcp_connect_time: 4, tls_handshake_time: 5, certificate: None }
}

#[test]
fn success_result_combines_response_and_connection() {
    let config = http_config(Some("https://example.com"), Some(vec![rule(ContentVerificationRules::Contains, "ok")]));
    let detail = match &config.details {
        MonitorConfigDetail::Http(d) => d,
        _ => unreachable!(),
    };
    let r = http_success_result(&config, detail, facts("all ok here"), conn(), 120, 1_000);
    assert!(r.status);
    assert_eq!(r.target.as_deref(), Some("https://example.com"));
    match r.details {
        CheckResultDetail::Http(h) => {
            assert_eq!(h.basic_avaliable.res_status_code, Some(200));
            assert_eq!(h.basic_avaliable.res_content_length, 11);
            assert_eq!(h.performance_timings.dns_lookup_time, 3);
            assert_eq!(h.performance_timings.tcp_connect_time, 4);
            assert_eq!(h.performance_timings.tls_handshake_time, 5);
            assert_eq!(h.performance_timings.total_time, 120);
            assert_eq!(h.performance_timings.request_sending_time, 1_000);
            assert!(!h.certificate_info.is_valid);
            assert_eq!(h.content_verification.match_rules.len(), 1);
            assert!(!h.response_headers.security_headers_ok);
        },
        _ => panic!("expected HTTP details"),
    }
    let bad = http_config(Some("https://example.com"), Some(vec![rule(ContentVerificationRules::Regex, "(")]));
    let bad_detail = match &bad.details {
        MonitorConfigDetail::Http(d) => d,
        _ => unreachable!(),
    };
    assert!(try_http_success_result(&bad, bad_detail, facts("x"), conn(), 1, 1).is_none());
    assert!(record_http_response(&bad, bad_detail, facts("x"), conn(), 1).is_none());
    // an empty body is checked against no rule, so a bad pattern does not matter
    let empty = try_http_success_result(&bad, bad_detail, facts(""), conn(), 1, 1).expect("empty body");
    match empty.details {
        CheckResultDetail::Http(h) => {
            assert!(h.content_verification.match_rules.is_empty());
            assert!(h.content_verification.failed_rules.is_empty());
        },
        _ => panic!("expected HTTP details"),
    }
    assert!(record_http_response(&bad, bad_detail, facts(""), conn(), 1).is_some());
    let stamped = record_http_response(&config, detail, facts("x"), conn(), 7).expect("patterns compile");
    match stamped.details {
        CheckResultDetail::Http(h) => assert!(h.performance_timings.request_sending_time > 1_600_000_000_000),
        _ => panic!("expected HTTP details"),
    }
}

#[test]
fn header_filter_keeps_valid_pairs_in_order() {
    let hs = vec![
        ("X-Token".to_string(), "abc".to_string()),
        ("bad name".to_string(), "v".to_string()),
        ("X-Ctl".to_string(), "line\nbreak".to_string()),
        ("Accept".to_string(), "*/*".to_string()),
    ];
    assert_eq!(
        filter_valid_headers(&hs),
        vec![("x-token".to_string(), "abc".to_string()), ("accept".to_string(), "*/*".to_string())]
    );
}

#[test]
fn header_filter_keeps_one_value_per_name() {
    let hs = vec![
        ("X-A".to_string(), "1".to_string()),
        ("Accept".to_string(), "*/*".to_string()),
        ("x-a".to_string(), "2".to_string()),
    ];
    // names are stored in lower case; a later value replaces an earlier one in place
    assert_eq!(
        filter_valid_headers(&hs),
        vec![("x-a".to_string(), "2".to_string()), ("accept".to_string(), "*/*".to_string())]
    );
    assert!(filter_valid_headers(&vec![("".to_string(), "v".to_string())]).is_empty());
    assert!(filter_valid_headers(&vec![("a\"b".to_string(), "v".to_string())]).is_empty());
}

#[test]
fn http_monitors_are_configured_from_their_settings() {
    let parsed = SelfDefineMonitorConfig {
        target: None,
        monitor_type: MonitorType::Http,
        method: Some(HttpMethodTypes::Post),
        interval: Some(60),
        timeout: None,
        params: None,
        headers: Some(vec![("X-A".to_string(), "1".to_string()), ("bad name".to_string(), "2".to_string())]),
        body: None,
        content_evaluation_rules: None,
        alert_rules: None,
    };
    let m = convert_to_monitor_config(&model("HTTP"), Some(parsed));
    assert_eq!(m.target.as_deref(), Some("https://example.com"));
    assert_eq!(m.monitor_type, MonitorType::Http);
    assert_eq!(m.interval, Some(60));
    match m.details {
        MonitorConfigDetail::Http(h) => {
            assert_eq!(h.url, "https://example.com");
            assert_eq!(h.method, HttpMethodTypes::Post);
            assert_eq!(h.timeout, 10);
            assert_eq!(h.headers, Some(vec![("x-a".to_string(), "1".to_string())]));
        },
        _ => panic!("expected HTTP settings"),
    }
}

#[test]
fn unreadable_settings_fall_back() {
    let m = convert_to_monitor_config(&model("HTTP"), None);
    assert_eq!(m.monitor_type, MonitorType::Unknown);
    assert_eq!(m.interval, None);
    match m.details {
        MonitorConfigDetail::Http(h) => {
            assert_eq!(h.method, HttpMethodTypes::Get);
            assert_eq!(h.timeout, 10);
            assert_eq!(h.headers, None);
        },
        _ => panic!("expected HTTP settings"),
    }
    let t = convert_to_monitor_config(&model("TCP"), None);
    match t.details {
        MonitorConfigDetail::Unknown(u) => assert_eq!(u.description, "Unsupported monitor type"),
        _ => panic!("expected unsupported"),
    }
}

#[test]
fn check_result_records() {
    let r = create_failed_result("x");
    let rec = check_result_record(7, &r, "{}".to_string());
    assert_eq!(rec.monitor_id, 7);
    assert_eq!(rec.monitor_type, "HTTP");
    assert_eq!(rec.status, 0);
    assert_eq!(rec.response_time, 0);
    assert_eq!(rec.metadata_json.as_deref(), Some("{}"));
    let ok = CpuMonitor::new().check(&http_config(Some("h"), None));
    assert_eq!(check_result_record(1, &ok, String::new()).status, 1);
}

#[test]
fn optional_texts_are_copied() {
    assert_eq!(copy_opt_text(&Some("a".to_string())), Some("a".to_string()));
    assert_eq!(copy_opt_text(&None), None);
    let d = HttpMonitorResult::default();
    assert!(!d.performance_timings.ssl_cert_valid);
    assert!(d.content_verification.match_rules.is_empty());
}
