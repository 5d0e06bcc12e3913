use point_monitor::alerts::{code_list_string, contains_code, decimal_string, AlertsEngine, NotifyChannel, NotifyEngine};
use point_monitor::http_monitor::create_failed_result;
use point_monitor::monitor_types::{CheckResult, CheckResultDetail};
use point_monitor::tools_types::{
    AlertRuleDetail, AlertRuleTypes, AlertVerificationRules, BasicAvailability, HttpMonitorResult, MonitorType,
    NotifyCondition, NotifyConfig,
};

fn http_result(code: Option<u16>) -> CheckResult {
    let mut h = HttpMonitorResult::default();
    h.basic_avaliable = BasicAvailability { res_status_code: code, ..BasicAvailability::default() };
    CheckResult { id: 1, monitor_type: MonitorType::Http, target: Some("https://e.x".to_string()), status: true, details: CheckResultDetail::Http(h) }
}

fn code_rule(contains: &[u16], no_contains: &[u16], regex: &str) -> AlertRuleDetail {
    AlertRuleDetail {
        rule_type: AlertRuleTypes::ResponseCode,
        condition: NotifyCondition { no_contains: no_contains.to_vec(), contains: contains.to_vec(), regex: regex.to_string() },
    }
}

fn engine(rules: Vec<AlertRuleDetail>) -> AlertsEngine {
    AlertsEngine::new(AlertVerificationRules {
        notify_type: "FEISHU".to_string(),
        notify_config: NotifyConfig { webhook_url: "https://hook".to_string() },
        rules,
    })
}

#[test]
fn decimal_texts() {
    assert_eq!(decimal_string(0), "0");
    assert_eq!(decimal_string(7), "7");
    assert_eq!(decimal_string(404), "404");
    assert_eq!(decimal_string(65535), "65535");
    assert_eq!(code_list_string(&vec![]), "[]");
    assert_eq!(code_list_string(&vec![200]), "[200]");
    assert_eq!(code_list_string(&vec![200, 301, 404]), "[200, 301, 404]");
    assert!(contains_code(&vec![1, 2, 3], 2));
    assert!(!contains_code(&vec![1, 2, 3], 4));
}

#[test]
fn notify_channels_by_type() {
    let ch = |t: &str| NotifyEngine::new(t.to_string(), NotifyConfig { webhook_url: String::new() }).channel();
    assert_eq!(ch("EMAIL"), NotifyChannel::Email);
    assert_eq!(ch("SMS"), NotifyChannel::Sms);
    assert_eq!(ch("FEISHU"), NotifyChannel::Feishu);
    assert_eq!(ch("feishu"), NotifyChannel::Unknown);
}

#[test]
fn engine_keeps_its_settings() {
    let e = engine(vec![code_rule(&[500], &[200], "")]);
    assert_eq!(e.notify.notify_type, "FEISHU");
    assert_eq!(e.notify.notify_config.webhook_url, "https://hook");
    assert_eq!(e.alert_rules.rules.len(), 1);
    assert_eq!(e.alert_rules.rules[0].condition.contains, vec![500]);
}

#[test]
fn code_in_contains_list_alerts() {
    let e = engine(vec![code_rule(&[500, 503], &[200], "")]);
    assert_eq!(
        e.check(http_result(Some(503))),
        Some("Response code 503 triggered alert, in contains list: [500, 503]".to_string())
    );
}

#[test]
fn code_missing_from_allowed_list_alerts() {
    let e = engine(vec![code_rule(&[], &[200, 204], "")]);
    assert_eq!(
        e.check(http_result(Some(404))),
        Some("Response code 404 triggered alert, not in no_contains list: [200, 204]".to_string())
    );
    assert_eq!(
        e.check(http_result(None)),
        Some("Response code 0 triggered alert, not in no_contains list: [200, 204]".to_string())
    );
}

#[test]
fn allowed_code_alerts_only_on_a_matching_pattern() {
    let e = engine(vec![code_rule(&[], &[200, 201], "^20")]);
    assert_eq!(
        e.check(http_result(Some(201))),
        Some("Response code 201 triggered alert, regex matched: \"^20\"".to_string())
    );
    let quiet = engine(vec![code_rule(&[], &[200], "")]);
    assert_eq!(quiet.check(http_result(Some(200))), None);
    let nomatch = engine(vec![code_rule(&[], &[200], "^5")]);
    assert_eq!(nomatch.check(http_result(Some(200))), None);
}

#[test]
fn only_the_first_code_rule_decides() {
    let unknown = AlertRuleDetail {
        rule_type: AlertRuleTypes::Unknown,
        condition: NotifyCondition { no_contains: vec![], contains: vec![], regex: String::new() },
    };
    let e = engine(vec![unknown, code_rule(&[], &[200], ""), code_rule(&[200], &[], "")]);
    assert_eq!(e.check(http_result(Some(200))), None);
    assert_eq!(engine(vec![]).check(http_result(Some(500))), None);
}

#[test]
fn failed_and_other_checks_never_alert() {
    let e = engine(vec![code_rule(&[0], &[], "")]);
    assert_eq!(e.check(create_failed_result("x")), None);
    let mut tcp = http_result(Some(500));
    tcp.monitor_type = MonitorType::Tcp;
    assert_eq!(e.check(tcp), None);
}

#[test]
fn try_check_refuses_a_bad_pattern_it_would_consult() {
    let e = engine(vec![code_rule(&[], &[200], "(")]);
    assert_eq!(e.try_check(http_result(Some(200))), None);
    // a code that alerts before the pattern is consulted
    assert_eq!(
        e.try_check(http_result(Some(500))),
        Some(Some("Response code 500 triggered alert, not in no_contains list: [200]".to_string()))
    );
    let ok = engine(vec![code_rule(&[], &[200], "")]);
    assert_eq!(ok.try_check(http_result(Some(200))), Some(None));
}

#[test]
fn check_http_reads_the_first_code_rule() {
    let e = engine(vec![code_rule(&[302], &[], "")]);
    assert_eq!(
        e.check_http(http_result(Some(302))),
        Some("Response code 302 triggered alert, in contains list: [302]".to_string())
    );
}

#[test]
fn check_http_decides_any_result_with_http_details() {
    let e = engine(vec![code_rule(&[302], &[], "")]);
    let mut failed = http_result(Some(302));
    failed.status = false;
    // the engine's own check skips failed results; the HTTP rule alone does not
    assert_eq!(e.check(failed.clone()), None);
    assert_eq!(
        e.check_http(failed),
        Some("Response code 302 triggered alert, in contains list: [302]".to_string())
    );
}
