//! The HTTP monitor's decisions and result building. The request itself is
//! sent by the caller; what came back is handed in as plain values.
use vstd::prelude::*;
use vstd::string::*;
use crate::external::{random_uuid_u128, regex_compiles, regex_finds, regex_is_match, regex_is_valid, unix_now_ms, url_components, url_valid};
use crate::monitor_types::{copy_opt_text, CheckResult, CheckResultDetail, HttpMonitorConfig, MonitorConfig, MonitorConfigDetail, UnknownQueryResult};
use crate::text::{has_substring, str_contains, str_eq};
use crate::tools_types::{lemma_status_category_by_hundreds, AdvancedAvailability, BasicAvailability, CertificateInfo, ContentVerificationResult, ContentVerificationRules, ContentVerificationRulesResult, ContentVerificationRulesSingle, HttpMonitorResult, is_blank_certificate, is_blank_http_result, is_blank_security, is_unreached, MonitorType, PerformanceTimings, SecurityHeaders, StatusCategory, status_category_of, StatusInfo};

verus! {

// ---------------------------------------------------------------------------
// Response headers.

/// Response headers as (name, value) pairs in the order the response map
/// yields them. Names are lower case (as header maps store them); a value is
/// `None` when it is not visible ASCII text.
pub open spec fn headers_view(hs: Seq<(String, Option<String>)>) -> Seq<(Seq<char>, Option<Seq<char>>)> {
    hs.map_values(|p: (String, Option<String>)| (p.0@, match p.1 { Some(v) => Some(v@), None => None }))
}

/// The text of an optional string.
pub open spec fn opt_text(o: Option<String>) -> Option<Seq<char>> {
    match o {
        Some(t) => Some(t@),
        None => None,
    }
}

/// `j` is the first header named `name`.
pub open spec fn is_first_header(hs: Seq<(Seq<char>, Option<Seq<char>>)>, name: Seq<char>, j: int) -> bool {
    &&& 0 <= j < hs.len()
    &&& hs[j].0 == name
    &&& forall|k: int| 0 <= k < j ==> #[trigger] hs[k].0 != name
}

/// The value of the first header named `name`: `None` when there is no such
/// header, `Some(None)` when its value is not text.
pub open spec fn header_value(hs: Seq<(Seq<char>, Option<Seq<char>>)>, name: Seq<char>) -> Option<Option<Seq<char>>> {
    if exists|j: int| is_first_header(hs, name, j) {
        Some(hs[choose|j: int| is_first_header(hs, name, j)].1)
    } else {
        None
    }
}

/// The text of the first header named `name`, an unreadable value read as
/// the empty text.
pub open spec fn header_text(hs: Seq<(Seq<char>, Option<Seq<char>>)>, name: Seq<char>) -> Option<Seq<char>> {
    match header_value(hs, name) {
        Some(Some(v)) => Some(v),
        Some(None) => Some(Seq::empty()),
        None => None,
    }
}

/// The readable text of the first header named `name`, if any.
pub open spec fn header_readable(hs: Seq<(Seq<char>, Option<Seq<char>>)>, name: Seq<char>) -> Option<Seq<char>> {
    match header_value(hs, name) {
        Some(Some(v)) => Some(v),
        _ => None,
    }
}

/// Finds the first header named `name`.
fn find_header(hs: &Vec<(String, Option<String>)>, name: &str) -> (r: Option<usize>)
    ensures
        r is Some <==> header_value(headers_view(hs@), name@) is Some,
        r matches Some(j) ==> is_first_header(headers_view(hs@), name@, j as int),
{
    let ghost v = headers_view(hs@);
    let mut i: usize = 0;
    while i < hs.len()
        invariant
            v == headers_view(hs@),
            i <= hs@.len(),
            forall|k: int| 0 <= k < i ==> #[trigger] v[k].0 != name@,
        decreases hs@.len() - i,
    {
        if str_eq(hs[i].0.as_str(), name) {
            proof {
                assert(v[i as int].0 == hs@[i as int].0@);
                assert(is_first_header(v, name@, i as int));
            }
            return Some(i);
        }
        assert(v[i as int].0 == hs@[i as int].0@);
        i = i + 1;
    }
    proof {
        assert forall|j: int| !is_first_header(v, name@, j) by {
            if 0 <= j < v.len() {
                assert(v[j].0 != name@);
            }
        }
    }
    None
}

proof fn lemma_first_header_unique(hs: Seq<(Seq<char>, Option<Seq<char>>)>, name: Seq<char>, a: int, b: int)
    requires
        is_first_header(hs, name, a),
        is_first_header(hs, name, b),
    ensures
        a == b,
{
}

/// The text of the first header named `name`, unreadable values as empty.
fn get_header_text(hs: &Vec<(String, Option<String>)>, name: &str) -> (r: Option<String>)
    ensures
        r is Some <==> header_text(headers_view(hs@), name@) is Some,
        r matches Some(t) ==> t@ == header_text(headers_view(hs@), name@)->0,
{
    match find_header(hs, name) {
        Some(j) => {
            proof {
                let v = headers_view(hs@);
                let c = choose|k: int| is_first_header(v, name@, k);
                lemma_first_header_unique(v, name@, c, j as int);
            }
            match &hs[j].1 {
                Some(t) => Some(t.clone()),
                None => Some(String::new()),
            }
        },
        None => None,
    }
}

/// The readable text of the first header named `name`.
fn get_header_readable(hs: &Vec<(String, Option<String>)>, name: &str) -> (r: Option<String>)
    ensures
        r is Some <==> header_readable(headers_view(hs@), name@) is Some,
        r matches Some(t) ==> t@ == header_readable(headers_view(hs@), name@)->0,
{
    match find_header(hs, name) {
        Some(j) => {
            proof {
                let v = headers_view(hs@);
                let c = choose|k: int| is_first_header(v, name@, k);
                lemma_first_header_unique(v, name@, c, j as int);
            }
            match &hs[j].1 {
                Some(t) => Some(t.clone()),
                None => None,
            }
        },
        None => None,
    }
}

/// Number of the seven recognised security headers present.
pub open spec fn security_header_count(hs: Seq<(Seq<char>, Option<Seq<char>>)>) -> int {
    (if header_value(hs, "strict-transport-security"@) is Some { 1int } else { 0 })
        + (if header_value(hs, "content-security-policy"@) is Some { 1int } else { 0 })
        + (if header_value(hs, "x-content-type-options"@) is Some { 1int } else { 0 })
        + (if header_value(hs, "x-frame-options"@) is Some { 1int } else { 0 })
        + (if header_value(hs, "x-xss-protection"@) is Some { 1int } else { 0 })
        + (if header_value(hs, "referrer-policy"@) is Some { 1int } else { 0 })
        + (if header_value(hs, "permissions-policy"@) is Some { 1int } else { 0 })
}

/// At least four of the seven security headers are present.
pub fn check_security_headers_ok(headers: &Vec<(String, Option<String>)>) -> (r: bool)
    ensures
        r == (security_header_count(headers_view(headers@)) >= 4),
{
    let mut score: u32 = 0;
    if find_header(headers, "strict-transport-security").is_some() {
        score = score + 1;
    }
    if find_header(headers, "content-security-policy").is_some() {
        score = score + 1;
    }
    if find_header(headers, "x-content-type-options").is_some() {
        score = score + 1;
    }
    if find_header(headers, "x-frame-options").is_some() {
        score = score + 1;
    }
    if find_header(headers, "x-xss-protection").is_some() {
        score = score + 1;
    }
    if find_header(headers, "referrer-policy").is_some() {
        score = score + 1;
    }
    if find_header(headers, "permissions-policy").is_some() {
        score = score + 1;
    }
    score >= 4
}

/// `s` records the security headers of `hs`.
pub open spec fn security_headers_of(s: SecurityHeaders, hs: Seq<(Seq<char>, Option<Seq<char>>)>) -> bool {
    &&& opt_text(s.strict_transport_security) == header_text(hs, "strict-transport-security"@)
    &&& opt_text(s.content_security_policy) == header_text(hs, "content-security-policy"@)
    &&& opt_text(s.x_content_type_options) == header_text(hs, "x-content-type-options"@)
    &&& opt_text(s.x_frame_options) == header_text(hs, "x-frame-options"@)
    &&& opt_text(s.x_xss_protection) == header_text(hs, "x-xss-protection"@)
    &&& opt_text(s.referrer_policy) == header_text(hs, "referrer-policy"@)
    &&& opt_text(s.feature_policy) == header_text(hs, "feature-policy"@)
    &&& opt_text(s.permissions_policy) == header_text(hs, "permissions-policy"@)
    &&& s.security_headers_ok == (security_header_count(hs) >= 4)
}

pub fn create_headers_result(headers: &Vec<(String, Option<String>)>) -> (s: SecurityHeaders)
    ensures
        security_headers_of(s, headers_view(headers@)),
{
    SecurityHeaders {
        strict_transport_security: get_header_text(headers, "strict-transport-security"),
        content_security_policy: get_header_text(headers, "content-security-policy"),
        x_content_type_options: get_header_text(headers, "x-content-type-options"),
        x_frame_options: get_header_text(headers, "x-frame-options"),
        x_xss_protection: get_header_text(headers, "x-xss-protection"),
        referrer_policy: get_header_text(headers, "referrer-policy"),
        feature_policy: get_header_text(headers, "feature-policy"),
        permissions_policy: get_header_text(headers, "permissions-policy"),
        security_headers_ok: check_security_headers_ok(headers),
    }
}

/// `b` records a received response with this status, protocol, headers and
/// declared length.
pub open spec fn basic_result_of(
    b: BasicAvailability,
    status_code: u16,
    protocol_version: Seq<char>,
    hs: Seq<(Seq<char>, Option<Seq<char>>)>,
    content_length: Option<u64>,
) -> bool {
    &&& b.is_reachable && b.dns_resolvable && b.tcp_connect_success && b.res_received
    &&& b.res_status_code == Some(status_code)
    &&& b.res_status_category == status_category_of(status_code)
    &&& b.protocol_version@ == protocol_version
    &&& opt_text(b.res_content_type) == header_readable(hs, "content-type"@)
    &&& b.res_content_length == match content_length { Some(n) => n, None => 0 }
    &&& opt_text(b.res_charset) == header_readable(hs, "accept-charset"@)
}

pub fn create_basic_result(
    status_code: u16,
    protocol_version: String,
    headers: &Vec<(String, Option<String>)>,
    content_length: Option<u64>,
) -> (b: BasicAvailability)
    ensures
        basic_result_of(b, status_code, protocol_version@, headers_view(headers@), content_length),
{
    BasicAvailability {
        is_reachable: true,
        dns_resolvable: true,
        tcp_connect_success: true,
        res_received: true,
        res_status_code: Some(status_code),
        res_status_category: StatusCategory::from_status_code(status_code),
        protocol_version,
        res_content_type: get_header_readable(headers, "content-type"),
        res_content_length: match content_length {
            Some(n) => n,
            None => 0,
        },
        res_charset: get_header_readable(headers, "accept-charset"),
    }
}

/// Timings of a check that took `total_time` ms and started at
/// `start_time_unix` (ms since the epoch); the connection phases are filled
/// in separately.
pub open spec fn timings_of(p: PerformanceTimings, total_time: u128, start_time_unix: u128) -> bool {
    &&& p.dns_lookup_time == 0 && p.tcp_connect_time == 0 && p.tls_handshake_time == 0
    &&& p.first_byte_time == 0 && p.content_download_time == 0 && p.ssl_negotiation_time == 0
    &&& p.ssl_cert_valid
    &&& p.request_sending_time == start_time_unix
    &&& p.server_processing_time == 0
    &&& p.response_receiving_time == total_time
    &&& p.total_time == total_time
}

pub fn create_performance_timings(total_time: u128, start_time_unix: u128) -> (p: PerformanceTimings)
    ensures
        timings_of(p, total_time, start_time_unix),
{
    PerformanceTimings {
        dns_lookup_time: 0,
        tcp_connect_time: 0,
        tls_handshake_time: 0,
        first_byte_time: 0,
        content_download_time: 0,
        ssl_negotiation_time: 0,
        ssl_cert_valid: true,
        request_sending_time: start_time_unix,
        server_processing_time: 0,
        response_receiving_time: total_time,
        total_time: total_time,
    }
}

pub fn create_advanced_availability_result() -> (r: AdvancedAvailability)
    ensures
        r.bussiness_metrics@.len() == 0,
{
    AdvancedAvailability { bussiness_metrics: Vec::new() }
}

// ---------------------------------------------------------------------------
// Content rules.

/// Whether the body satisfies one content rule. A rule of the default kind
/// never holds.
pub open spec fn rule_holds(body: Seq<char>, rule: ContentVerificationRulesSingle) -> bool {
    match rule.rule_type {
        ContentVerificationRules::Contains => has_substring(body, rule.rule_content@),
        ContentVerificationRules::NotContains => !has_substring(body, rule.rule_content@),
        ContentVerificationRules::Regex => regex_finds(rule.rule_content@, body),
        ContentVerificationRules::Default => false,
    }
}

/// Every pattern rule carries a pattern that compiles.
pub open spec fn patterns_compile(rules: Seq<ContentVerificationRulesSingle>) -> bool {
    forall|i: int|
        0 <= i < rules.len() && (#[trigger] rules[i]).rule_type == ContentVerificationRules::Regex
            ==> regex_compiles(rules[i].rule_content@)
}

/// The rules' patterns that a body is checked against compile: an empty
/// body is checked against nothing, so only a non-empty one needs them.
pub open spec fn body_patterns_compile(body: Seq<char>, rules: Option<Vec<ContentVerificationRulesSingle>>) -> bool {
    body.len() > 0 ==> (rules matches Some(rs) ==> patterns_compile(rs@))
}

/// Indices of the rules with outcome `holds`, in order.
pub open spec fn rules_with_outcome(body: Seq<char>, rules: Seq<ContentVerificationRulesSingle>, holds: bool) -> Seq<int>
    decreases rules.len(),
{
    if rules.len() == 0 {
        Seq::empty()
    } else {
        let p = rules_with_outcome(body, rules.drop_last(), holds);
        if rule_holds(body, rules.last()) == holds {
            p.push(rules.len() - 1)
        } else {
            p
        }
    }
}

/// `r` reports rule `rule` with outcome `holds`.
pub open spec fn reports_rule(r: ContentVerificationRulesResult, rule: ContentVerificationRulesSingle, holds: bool) -> bool {
    &&& r.status == if holds { StatusInfo::Success } else { StatusInfo::Failed }
    &&& r.message@ == if holds { "Rule verification passed"@ } else { "Rule verification failed"@ }
    &&& r.rules.rule_type == rule.rule_type
    &&& r.rules.rule_content@ == rule.rule_content@
    &&& r.rules.rule_description@ == rule.rule_description@
}

/// `out` lists, in order, the reports of the rules with outcome `holds`.
pub open spec fn reports_outcome(
    out: Seq<ContentVerificationRulesResult>,
    body: Seq<char>,
    rules: Seq<ContentVerificationRulesSingle>,
    holds: bool,
) -> bool {
    let idx = rules_with_outcome(body, rules, holds);
    &&& out.len() == idx.len()
    &&& forall|k: int| 0 <= k < idx.len() ==> reports_rule(#[trigger] out[k], rules[idx[k]], holds)
}

/// `r` is the outcome of checking `body` against `rules`: nothing is checked
/// when there are no rules or the body is empty.
pub open spec fn content_result_of(r: ContentVerificationResult, body: Seq<char>, rules: Option<Vec<ContentVerificationRulesSingle>>) -> bool {
    match rules {
        Some(rs) if body.len() > 0 => {
            &&& reports_outcome(r.match_rules@, body, rs@, true)
            &&& reports_outcome(r.failed_rules@, body, rs@, false)
        },
        _ => r.match_rules@.len() == 0 && r.failed_rules@.len() == 0,
    }
}

/// Appends the report of one rule to the list of its outcome.
fn get_content_verify_result(
    status: bool,
    rule_type: ContentVerificationRules,
    rule_content: String,
    rule_description: String,
    true_rules: &mut Vec<ContentVerificationRulesResult>,
    failed_rules: &mut Vec<ContentVerificationRulesResult>,
)
    ensures
        status ==> final(failed_rules)@ == old(failed_rules)@,
        !status ==> final(true_rules)@ == old(true_rules)@,
        status ==> final(true_rules)@.len() == old(true_rules)@.len() + 1
            && final(true_rules)@.drop_last() == old(true_rules)@,
        !status ==> final(failed_rules)@.len() == old(failed_rules)@.len() + 1
            && final(failed_rules)@.drop_last() == old(failed_rules)@,
        ({
            let added = if status { final(true_rules)@.last() } else { final(failed_rules)@.last() };
            &&& added.status == if status { StatusInfo::Success } else { StatusInfo::Failed }
            &&& added.message@ == if status { "Rule verification passed"@ } else { "Rule verification failed"@ }
            &&& added.rules.rule_type == rule_type
            &&& added.rules.rule_content@ == rule_content@
            &&& added.rules.rule_description@ == rule_description@
        }),
{
    let result = ContentVerificationRulesResult {
        rule_id: random_uuid_u128() as u64,
        status: if status { StatusInfo::Success } else { StatusInfo::Failed },
        message: if status {
            String::from_str("Rule verification passed")
        } else {
            String::from_str("Rule verification failed")
        },
        rules: ContentVerificationRulesSingle { rule_type, rule_content, rule_description },
    };
    if status {
        true_rules.push(result);
        assert(true_rules@.drop_last() =~= old(true_rules)@);
    } else {
        failed_rules.push(result);
        assert(failed_rules@.drop_last() =~= old(failed_rules)@);
    }
}

/// Checks the body against each content rule, in order. Every report gets a
/// fresh random identifier.
pub fn create_content_verification_result(body: String, rules: &Option<Vec<ContentVerificationRulesSingle>>) -> (r: ContentVerificationResult)
    requires
        body_patterns_compile(body@, *rules),
    ensures
        content_result_of(r, body@, *rules),
{
    let empty = body.as_str().unicode_len() == 0;
    match rules {
        None => ContentVerificationResult { match_rules: Vec::new(), failed_rules: Vec::new() },
        Some(rs) => {
            if empty {
                return ContentVerificationResult { match_rules: Vec::new(), failed_rules: Vec::new() };
            }
            let mut match_rules: Vec<ContentVerificationRulesResult> = Vec::new();
            let mut failed_rules: Vec<ContentVerificationRulesResult> = Vec::new();
            let mut i: usize = 0;
            assert(rs@.take(0) =~= Seq::<ContentVerificationRulesSingle>::empty());
            while i < rs.len()
                invariant
                    i <= rs@.len(),
                    patterns_compile(rs@),
                    reports_outcome(match_rules@, body@, rs@.take(i as int), true),
                    reports_outcome(failed_rules@, body@, rs@.take(i as int), false),
                decreases rs@.len() - i,
            {
                let rule = &rs[i];
                let status = match rule.rule_type {
                    ContentVerificationRules::Contains => str_contains(body.as_str(), rule.rule_content.as_str()),
                    ContentVerificationRules::NotContains => !str_contains(body.as_str(), rule.rule_content.as_str()),
                    ContentVerificationRules::Regex => regex_is_match(rule.rule_content.as_str(), body.as_str()),
                    _ => false,
                };
                let ghost old_match = match_rules@;
                let ghost old_failed = failed_rules@;
                get_content_verify_result(
                    status,
                    rule.rule_type,
                    rule.rule_content.clone(),
                    rule.rule_description.clone(),
                    &mut match_rules,
                    &mut failed_rules,
                );
                proof {
                    let pre = rs@.take(i as int);
                    let post = rs@.take(i + 1);
                    assert(post.drop_last() =~= pre);
                    assert(post.last() == rs@[i as int]);
                    assert(status == rule_holds(body@, rs@[i as int]));
                    lemma_outcome_prefix(body@, rs@, i as int, true);
                    lemma_outcome_prefix(body@, rs@, i as int, false);
                    let im = rules_with_outcome(body@, post, true);
                    let jf = rules_with_outcome(body@, post, false);
                    assert forall|k: int| 0 <= k < im.len() implies reports_rule(#[trigger] match_rules@[k], post[im[k]], true) by {
                        if k < old_match.len() {
                            assert(match_rules@[k] == old_match[k]);
                            assert(im[k] == rules_with_outcome(body@, pre, true)[k]);
                        }
                    }
                    assert forall|k: int| 0 <= k < jf.len() implies reports_rule(#[trigger] failed_rules@[k], post[jf[k]], false) by {
                        if k < old_failed.len() {
                            assert(failed_rules@[k] == old_failed[k]);
                            assert(jf[k] == rules_with_outcome(body@, pre, false)[k]);
                        }
                    }
                }
                i = i + 1;
            }
            assert(rs@.take(rs@.len() as int) =~= rs@);
            ContentVerificationResult { match_rules, failed_rules }
        },
    }
}

/// The rules' indices stay below the number of rules, and indexing a prefix
/// gives the same rule as indexing the whole list.
proof fn lemma_outcome_prefix(body: Seq<char>, rules: Seq<ContentVerificationRulesSingle>, i: int, holds: bool)
    requires
        0 <= i < rules.len(),
    ensures
        forall|k: int| 0 <= k < rules_with_outcome(body, rules.take(i + 1), holds).len()
            ==> 0 <= #[trigger] rules_with_outcome(body, rules.take(i + 1), holds)[k] <= i,
        forall|k: int| 0 <= k < rules_with_outcome(body, rules.take(i), holds).len()
            ==> 0 <= #[trigger] rules_with_outcome(body, rules.take(i), holds)[k] < i,
{
    lemma_outcome_bounded(body, rules.take(i + 1), holds);
    lemma_outcome_bounded(body, rules.take(i), holds);
}

proof fn lemma_outcome_bounded(body: Seq<char>, rules: Seq<ContentVerificationRulesSingle>, holds: bool)
    ensures
        forall|k: int| 0 <= k < rules_with_outcome(body, rules, holds).len()
            ==> 0 <= #[trigger] rules_with_outcome(body, rules, holds)[k] < rules.len(),
    decreases rules.len(),
{
    if rules.len() > 0 {
        lemma_outcome_bounded(body, rules.drop_last(), holds);
        let p = rules_with_outcome(body, rules.drop_last(), holds);
        if rule_holds(body, rules.last()) == holds {
            assert forall|k: int| 0 <= k < p.push(rules.len() - 1).len() implies 0 <= #[trigger] p.push(rules.len() - 1)[k] < rules.len() by {
                if k < p.len() {
                    assert(p.push(rules.len() - 1)[k] == p[k]);
                }
            }
        }
    }
}

/// Each rule is reported once: the passed and the failed lists together
/// hold as many reports as there are rules.
pub proof fn lemma_every_rule_reported_once(body: Seq<char>, rules: Seq<ContentVerificationRulesSingle>)
    ensures
        rules_with_outcome(body, rules, true).len() + rules_with_outcome(body, rules, false).len() == rules.len(),
    decreases rules.len(),
{
    if rules.len() > 0 {
        lemma_every_rule_reported_once(body, rules.drop_last());
    }
}

/// Whether every pattern rule carries a pattern that compiles.
pub fn content_patterns_compile(rules: &Option<Vec<ContentVerificationRulesSingle>>) -> (r: bool)
    ensures
        r == (rules matches Some(rs) ==> patterns_compile(rs@)),
{
    match rules {
        None => true,
        Some(rs) => {
            let ok = all_patterns_compile(rs);
            ok
        },
    }
}

fn all_patterns_compile(rs: &Vec<ContentVerificationRulesSingle>) -> (r: bool)
    ensures
        r == patterns_compile(rs@),
{
    let mut i: usize = 0;
    while i < rs.len()
        invariant
            i <= rs@.len(),
            forall|j: int|
                0 <= j < i && (#[trigger] rs@[j]).rule_type == ContentVerificationRules::Regex
                    ==> regex_compiles(rs@[j].rule_content@),
        decreases rs@.len() - i,
    {
        if rs[i].rule_type == ContentVerificationRules::Regex {
            if !regex_is_valid(rs[i].rule_content.as_str()) {
                assert(rs@[i as int].rule_type == ContentVerificationRules::Regex && !regex_compiles(rs@[i as int].rule_content@));
                return false;
            }
        }
        i = i + 1;
    }
    true
}

// ---------------------------------------------------------------------------
// The check.

/// What the HTTP monitor does with its configuration.
#[derive(PartialEq, Eq, Structural, Clone, Copy, Debug)]
pub enum HttpCheckPlan {
    /// No target, or a target that is not a URL: report a failed check.
    Fail,
    /// Not an HTTP configuration: report that the kind does not match.
    WrongConfig,
    /// Send the configured request to the target.
    Send,
}

/// The plan for a configuration: the target must be present and a URL, and
/// the settings must be HTTP settings.
pub open spec fn http_plan_of(config: MonitorConfig) -> HttpCheckPlan {
    match config.target {
        None => HttpCheckPlan::Fail,
        Some(t) => if !url_valid(t@) {
            HttpCheckPlan::Fail
        } else {
            match config.details {
                MonitorConfigDetail::Http(_) => HttpCheckPlan::Send,
                _ => HttpCheckPlan::WrongConfig,
            }
        },
    }
}

pub fn plan_http_check(config: &MonitorConfig) -> (p: HttpCheckPlan)
    ensures
        p == http_plan_of(*config),
{
    match &config.target {
        None => HttpCheckPlan::Fail,
        Some(t) => {
            match url_components(t.as_str()) {
                None => HttpCheckPlan::Fail,
                Some(_) => match &config.details {
                    MonitorConfigDetail::Http(_) => HttpCheckPlan::Send,
                    _ => HttpCheckPlan::WrongConfig,
                },
            }
        },
    }
}

/// A failed HTTP check: nothing reached, no target recorded.
pub open spec fn is_failed_http_check(r: CheckResult) -> bool {
    &&& r.monitor_type == MonitorType::Http
    &&& r.target is None
    &&& !r.status
    &&& r.details matches CheckResultDetail::Http(h) && is_blank_http_result(h)
}

/// The result reported when the check cannot start; the reason is not kept.
pub fn create_failed_result(message: &str) -> (r: CheckResult)
    ensures
        is_failed_http_check(r),
{
    CheckResult {
        id: random_uuid_u128(),
        monitor_type: MonitorType::Http,
        target: None,
        status: false,
        details: CheckResultDetail::Http(HttpMonitorResult::default()),
    }
}

/// The result reported for a configuration that is not an HTTP one.
pub fn http_wrong_config_result() -> (r: CheckResult)
    ensures
        r.monitor_type == MonitorType::Http,
        r.target is None,
        !r.status,
        r.details matches CheckResultDetail::Unknown(u) && u.query_type == MonitorType::Http
            && u.description@ == "调用监控类型: HTTP, 请查实后再继续操作"@,
{
    CheckResult {
        id: random_uuid_u128(),
        monitor_type: MonitorType::Http,
        target: None,
        status: false,
        details: CheckResultDetail::Unknown(
            UnknownQueryResult { description: String::from_str("调用监控类型: HTTP, 请查实后再继续操作"), query_type: MonitorType::Http },
        ),
    }
}

/// The result reported when sending the request failed: the check itself
/// ran, so it succeeds, with nothing recorded about the target.
pub fn http_send_failed_result(config: &MonitorConfig) -> (r: CheckResult)
    ensures
        r.monitor_type == MonitorType::Http,
        opt_text(r.target) == opt_text(config.target),
        r.status,
        r.details matches CheckResultDetail::Http(h) && is_blank_http_result(h),
{
    CheckResult {
        id: random_uuid_u128(),
        monitor_type: MonitorType::Http,
        target: copy_opt_text(&config.target),
        status: true,
        details: CheckResultDetail::Http(HttpMonitorResult::default()),
    }
}

/// What came back from the target.
#[derive(Clone, Debug)]
pub struct HttpResponseFacts {
    pub status_code: u16,
    /// The protocol version as the client library names it, e.g. `HTTP/1.1`.
    pub protocol_version: String,
    pub headers: Vec<(String, Option<String>)>,
    pub content_length: Option<u64>,
    /// The body as text (empty when it could not be read).
    pub body: String,
}

/// The connection phases measured separately: DNS lookup, TCP connect and
/// TLS handshake times (ms) and the certificate, when they could be measured.
#[derive(Clone, Debug)]
pub struct ConnectionFacts {
    pub dns_lookup_time: u128,
    pub tcp_connect_time: u128,
    pub tls_handshake_time: u128,
    pub certificate: Option<CertificateInfo>,
}

/// The result of an HTTP check that received a response.
pub open spec fn is_http_success(
    r: CheckResult,
    config: MonitorConfig,
    detail: HttpMonitorConfig,
    facts: HttpResponseFacts,
    conn: ConnectionFacts,
    elapsed_ms: u128,
    now_unix_ms: u128,
) -> bool {
    &&& r.monitor_type == MonitorType::Http
    &&& opt_text(r.target) == opt_text(config.target)
    &&& r.status
    &&& r.details matches CheckResultDetail::Http(h) && {
        &&& basic_result_of(h.basic_avaliable, facts.status_code, facts.protocol_version@, headers_view(facts.headers@), facts.content_length)
        &&& security_headers_of(h.response_headers, headers_view(facts.headers@))
        &&& h.performance_timings.dns_lookup_time == conn.dns_lookup_time
        &&& h.performance_timings.tcp_connect_time == conn.tcp_connect_time
        &&& h.performance_timings.tls_handshake_time == conn.tls_handshake_time
        &&& h.performance_timings.first_byte_time == 0
        &&& h.performance_timings.content_download_time == 0
        &&& h.performance_timings.ssl_negotiation_time == 0
        &&& h.performance_timings.ssl_cert_valid
        &&& h.performance_timings.request_sending_time == now_unix_ms
        &&& h.performance_timings.server_processing_time == 0
        &&& h.performance_timings.response_receiving_time == elapsed_ms
        &&& h.performance_timings.total_time == elapsed_ms
        &&& (conn.certificate is None ==> is_blank_certificate(h.certificate_info))
        &&& (conn.certificate matches Some(c) ==> h.certificate_info == c)
        &&& content_result_of(h.content_verification, facts.body@, detail.rules)
        &&& h.advanced_avaliable.bussiness_metrics@.len() == 0
    }
}

/// Builds the result of an HTTP check that received a response.
pub fn http_success_result(
    config: &MonitorConfig,
    detail: &HttpMonitorConfig,
    facts: HttpResponseFacts,
    conn: ConnectionFacts,
    elapsed_ms: u128,
    now_unix_ms: u128,
) -> (r: CheckResult)
    requires
        body_patterns_compile(facts.body@, detail.rules),
    ensures
        is_http_success(r, *config, *detail, facts, conn, elapsed_ms, now_unix_ms),
{
    let ghost facts_in = facts;
    let ghost conn_in = conn;
    let HttpResponseFacts { status_code, protocol_version, headers, content_length, body } = facts;
    let ConnectionFacts { dns_lookup_time, tcp_connect_time, tls_handshake_time, certificate } = conn;
    let basic_avaliable = create_basic_result(status_code, protocol_version, &headers, content_length);
    let response_headers = create_headers_result(&headers);
    let base = create_performance_timings(elapsed_ms, now_unix_ms);
    let performance_timings = PerformanceTimings { dns_lookup_time, tcp_connect_time, tls_handshake_time, ..base };
    let certificate_info = match certificate {
        Some(c) => c,
        None => CertificateInfo::default(),
    };
    let content_verification = create_content_verification_result(body, &detail.rules);
    CheckResult {
        id: random_uuid_u128(),
        monitor_type: MonitorType::Http,
        target: copy_opt_text(&config.target),
        status: true,
        details: CheckResultDetail::Http(
            HttpMonitorResult {
                basic_avaliable,
                response_headers,
                performance_timings,
                certificate_info,
                content_verification,
                advanced_avaliable: create_advanced_availability_result(),
            },
        ),
    }
}

/// Builds the result of an HTTP check that received a response, when the
/// body is empty or every pattern rule compiles; `None` (where the rule
/// check would panic) otherwise.
pub fn try_http_success_result(
    config: &MonitorConfig,
    detail: &HttpMonitorConfig,
    facts: HttpResponseFacts,
    conn: ConnectionFacts,
    elapsed_ms: u128,
    now_unix_ms: u128,
) -> (r: Option<CheckResult>)
    ensures
        r is Some <==> body_patterns_compile(facts.body@, detail.rules),
        r matches Some(c) ==> is_http_success(c, *config, *detail, facts, conn, elapsed_ms, now_unix_ms),
{
    if facts.body.as_str().unicode_len() == 0 || content_patterns_compile(&detail.rules) {
        Some(http_success_result(config, detail, facts, conn, elapsed_ms, now_unix_ms))
    } else {
        None
    }
}

/// Builds the result of an HTTP check that received a response, stamped
/// with the current wall-clock time as its start time; `None` where the body
/// is not empty and a pattern rule does not compile. Whatever the clock reads, the result is the one
/// `try_http_success_result` gives for some start time.
pub fn record_http_response(
    config: &MonitorConfig,
    detail: &HttpMonitorConfig,
    facts: HttpResponseFacts,
    conn: ConnectionFacts,
    elapsed_ms: u128,
) -> (r: Option<CheckResult>)
    ensures
        r is Some <==> body_patterns_compile(facts.body@, detail.rules),
        r matches Some(c) ==> exists|t: u128| #[trigger] is_http_success(c, *config, *detail, facts, conn, elapsed_ms, t),
{
    let now = unix_now_ms();
    let r = try_http_success_result(config, detail, facts, conn, elapsed_ms, now);
    proof {
        if r is Some {
            assert(is_http_success(r->0, *config, *detail, facts, conn, elapsed_ms, now));
        }
    }
    r
}

/// A check that received a response reports the response's status code and
/// the category of its hundreds digit (3xx is a redirection, and so on),
/// and reports the target as reached.
pub proof fn lemma_success_reports_status(
    r: CheckResult,
    config: MonitorConfig,
    detail: HttpMonitorConfig,
    facts: HttpResponseFacts,
    conn: ConnectionFacts,
    elapsed_ms: u128,
    now_unix_ms: u128,
)
    requires
        is_http_success(r, config, detail, facts, conn, elapsed_ms, now_unix_ms),
    ensures
        r.status,
        r.details matches CheckResultDetail::Http(h) && {
            let code = facts.status_code;
            let c = h.basic_avaliable.res_status_category;
            &&& h.basic_avaliable.res_status_code == Some(code)
            &&& h.basic_avaliable.is_reachable && h.basic_avaliable.res_received
            &&& (code / 100 == 1 ==> c == StatusCategory::Informational)
            &&& (code / 100 == 2 ==> c == StatusCategory::Success)
            &&& (code / 100 == 3 ==> c == StatusCategory::Redirection)
            &&& (code / 100 == 4 ==> c == StatusCategory::ClientError)
            &&& (code / 100 == 5 ==> c == StatusCategory::ServerError)
            &&& ((code / 100 == 0 || code / 100 >= 6) ==> c == StatusCategory::Unknown)
        },
{
    lemma_status_category_by_hundreds(facts.status_code);
}

} // verus!
