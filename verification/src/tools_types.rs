//! Monitoring vocabulary: monitor kinds, HTTP request settings, the parts of
//! an HTTP check result, content rules and alert rules.
use vstd::prelude::*;
use vstd::string::*;
use vstd::string::StringSliceAdditionalSpecFns;
use vstd::utf8::encode_utf8;
use crate::db_models::MonitorConfigModel;
use crate::external::{header_name_parse, header_name_text, header_name_valid, header_value_byte, header_value_parses};
use crate::monitor_types::{HttpMonitorConfig, MonitorConfig, MonitorConfigDetail, UnknownQueryConfig};
use crate::text::str_eq;

verus! {

/// HTTP request methods a monitor may use.
#[derive(PartialEq, Eq, Structural, Clone, Copy, Debug)]
pub enum HttpMethodTypes {
    Get,
    Post,
    Put,
    Delete,
    Head,
    Options,
    Patch,
    Trace,
    Connect,
}

/// Body of a monitoring request.
#[derive(Debug)]
pub enum HttpBody {
    Text(String),
    Binary(Vec<u8>),
    Json(serde_json::Value),
    Empty,
}

/// Kinds of monitors.
#[derive(PartialEq, Eq, Structural, Clone, Copy, Debug, Hash)]
pub enum MonitorType {
    Icmp,
    Tcp,
    Udp,
    Dns,
    Http,
    Ftp,
    Traceroute,
    Cpu,
    Memory,
    Disk,
    Process,
    Unknown,
}

/// Display name of a monitor kind (also its name on the wire).
pub open spec fn monitor_type_name(t: MonitorType) -> Seq<char> {
    match t {
        MonitorType::Icmp => "ICMP"@,
        MonitorType::Tcp => "TCP"@,
        MonitorType::Udp => "UDP"@,
        MonitorType::Dns => "DNS"@,
        MonitorType::Http => "HTTP"@,
        MonitorType::Ftp => "FTP"@,
        MonitorType::Traceroute => "TRACEROUTE"@,
        MonitorType::Cpu => "CPU"@,
        MonitorType::Memory => "MEMORY"@,
        MonitorType::Disk => "DISK"@,
        MonitorType::Process => "PROCESS"@,
        MonitorType::Unknown => "UNKNOWN"@,
    }
}

impl MonitorType {
    /// The display name of the monitor kind.
    pub fn to_string(&self) -> (s: String)
        ensures
            s@ == monitor_type_name(*self),
    {
        let name = match self {
            MonitorType::Dns => "DNS",
            MonitorType::Http => "HTTP",
            MonitorType::Ftp => "FTP",
            MonitorType::Traceroute => "TRACEROUTE",
            MonitorType::Cpu => "CPU",
            MonitorType::Memory => "MEMORY",
            MonitorType::Disk => "DISK",
            MonitorType::Process => "PROCESS",
            MonitorType::Icmp => "ICMP",
            MonitorType::Tcp => "TCP",
            MonitorType::Udp => "UDP",
            MonitorType::Unknown => "UNKNOWN",
        };
        String::from_str(name)
    }
}

/// Distinct monitor kinds have distinct names.
pub proof fn lemma_monitor_type_names_distinct(a: MonitorType, b: MonitorType)
    ensures
        monitor_type_name(a) == monitor_type_name(b) ==> a == b,
{
    reveal_strlit("ICMP");
    reveal_strlit("TCP");
    reveal_strlit("UDP");
    reveal_strlit("DNS");
    reveal_strlit("HTTP");
    reveal_strlit("FTP");
    reveal_strlit("TRACEROUTE");
    reveal_strlit("CPU");
    reveal_strlit("MEMORY");
    reveal_strlit("DISK");
    reveal_strlit("PROCESS");
    reveal_strlit("UNKNOWN");
    if monitor_type_name(a) == monitor_type_name(b) && a != b {
        let x = monitor_type_name(a);
        let y = monitor_type_name(b);
        assert(x.len() == y.len());
        assert(x[0] == y[0]);
        assert(x[1] == y[1]);
    }
}

/// Class of an HTTP status code.
#[derive(PartialEq, Eq, Structural, Clone, Copy, Debug)]
pub enum StatusCategory {
    Informational,
    Success,
    Redirection,
    ClientError,
    ServerError,
    Unknown,
}

/// The class of a status code by its hundreds.
pub open spec fn status_category_of(code: u16) -> StatusCategory {
    if 100 <= code <= 199 {
        StatusCategory::Informational
    } else if 200 <= code <= 299 {
        StatusCategory::Success
    } else if 300 <= code <= 399 {
        StatusCategory::Redirection
    } else if 400 <= code <= 499 {
        StatusCategory::ClientError
    } else if 500 <= code <= 599 {
        StatusCategory::ServerError
    } else {
        StatusCategory::Unknown
    }
}

/// The category of a status code is read off its hundreds digit: 1xx
/// informational, 2xx success, 3xx redirection, 4xx client error, 5xx
/// server error; codes below 100 or from 600 on are unknown.
pub proof fn lemma_status_category_by_hundreds(code: u16)
    ensures
        code / 100 == 1 ==> status_category_of(code) == StatusCategory::Informational,
        code / 100 == 2 ==> status_category_of(code) == StatusCategory::Success,
        code / 100 == 3 ==> status_category_of(code) == StatusCategory::Redirection,
        code / 100 == 4 ==> status_category_of(code) == StatusCategory::ClientError,
        code / 100 == 5 ==> status_category_of(code) == StatusCategory::ServerError,
        (code / 100 == 0 || code / 100 >= 6) ==> status_category_of(code) == StatusCategory::Unknown,
{
}

impl StatusCategory {
    pub fn from_status_code(status_code: u16) -> (c: Self)
        ensures
            c == status_category_of(status_code),
    {
        if 100 <= status_code && status_code <= 199 {
            StatusCategory::Informational
        } else if 200 <= status_code && status_code <= 299 {
            StatusCategory::Success
        } else if 300 <= status_code && status_code <= 399 {
            StatusCategory::Redirection
        } else if 400 <= status_code && status_code <= 499 {
            StatusCategory::ClientError
        } else if 500 <= status_code && status_code <= 599 {
            StatusCategory::ServerError
        } else {
            StatusCategory::Unknown
        }
    }
}

impl Default for StatusCategory {
    fn default() -> (c: Self)
        ensures
            c == StatusCategory::Unknown,
    {
        StatusCategory::Unknown
    }
}

/// Basic reachability of an HTTP target and what its response said.
#[derive(Clone, Debug)]
pub struct BasicAvailability {
    pub is_reachable: bool,
    pub dns_resolvable: bool,
    pub tcp_connect_success: bool,
    pub res_received: bool,
    pub res_status_code: Option<u16>,
    pub res_status_category: StatusCategory,
    pub protocol_version: String,
    pub res_content_type: Option<String>,
    pub res_content_length: u64,
    pub res_charset: Option<String>,
}

/// Nothing was reached and nothing received.
pub open spec fn is_unreached(b: BasicAvailability) -> bool {
    &&& !b.is_reachable && !b.dns_resolvable && !b.tcp_connect_success && !b.res_received
    &&& b.res_status_code is None
    &&& b.res_status_category == StatusCategory::Unknown
    &&& b.protocol_version@.len() == 0
    &&& b.res_content_type is None
    &&& b.res_content_length == 0
    &&& b.res_charset is None
}

impl Default for BasicAvailability {
    fn default() -> (b: Self)
        ensures
            is_unreached(b),
    {
        BasicAvailability {
            is_reachable: false,
            dns_resolvable: false,
            tcp_connect_success: false,
            res_received: false,
            res_status_code: None,
            res_status_category: StatusCategory::Unknown,
            protocol_version: String::new(),
            res_content_type: None,
            res_content_length: 0,
            res_charset: None,
        }
    }
}

/// Timings of an HTTP check, in milliseconds.
#[derive(Clone, Debug)]
pub struct PerformanceTimings {
    pub dns_lookup_time: u128,
    pub tcp_connect_time: u128,
    pub tls_handshake_time: u128,
    pub first_byte_time: u128,
    pub content_download_time: u128,
    pub ssl_negotiation_time: u128,
    pub ssl_cert_valid: bool,
    pub request_sending_time: u128,
    pub server_processing_time: u128,
    pub response_receiving_time: u128,
    pub total_time: u128,
}

/// All timings zero, no valid certificate recorded.
pub open spec fn is_zero_timings(p: PerformanceTimings) -> bool {
    &&& p.dns_lookup_time == 0 && p.tcp_connect_time == 0 && p.tls_handshake_time == 0
    &&& p.first_byte_time == 0 && p.content_download_time == 0 && p.ssl_negotiation_time == 0
    &&& !p.ssl_cert_valid
    &&& p.request_sending_time == 0 && p.server_processing_time == 0
    &&& p.response_receiving_time == 0 && p.total_time == 0
}

impl Default for PerformanceTimings {
    fn default() -> (p: Self)
        ensures
            is_zero_timings(p),
    {
        PerformanceTimings {
            dns_lookup_time: 0,
            tcp_connect_time: 0,
            tls_handshake_time: 0,
            first_byte_time: 0,
            content_download_time: 0,
            ssl_negotiation_time: 0,
            ssl_cert_valid: false,
            request_sending_time: 0,
            server_processing_time: 0,
            response_receiving_time: 0,
            total_time: 0,
        }
    }
}

/// TLS certificate details of an HTTPS target.
#[derive(Clone, Debug)]
pub struct CertificateInfo {
    pub issuer: Option<String>,
    pub subject: Option<String>,
    pub valid_from: Option<String>,
    pub valid_until: Option<String>,
    pub serial_number: Option<String>,
    pub signature_algorithm: Option<String>,
    pub public_key_algorithm: Option<String>,
    pub public_key_size: Option<usize>,
    pub is_valid: bool,
}

/// No certificate details recorded.
pub open spec fn is_blank_certificate(c: CertificateInfo) -> bool {
    &&& c.issuer is None && c.subject is None && c.valid_from is None && c.valid_until is None
    &&& c.serial_number is None && c.signature_algorithm is None && c.public_key_algorithm is None
    &&& c.public_key_size is None
    &&& !c.is_valid
}

impl Default for CertificateInfo {
    fn default() -> (c: Self)
        ensures
            is_blank_certificate(c),
    {
        CertificateInfo {
            issuer: None,
            subject: None,
            valid_from: None,
            valid_until: None,
            serial_number: None,
            signature_algorithm: None,
            public_key_algorithm: None,
            public_key_size: None,
            is_valid: false,
        }
    }
}

/// The security-related response headers and whether enough of them are set.
#[derive(Clone, Debug)]
pub struct SecurityHeaders {
    pub strict_transport_security: Option<String>,
    pub content_security_policy: Option<String>,
    pub x_content_type_options: Option<String>,
    pub x_frame_options: Option<String>,
    pub x_xss_protection: Option<String>,
    pub referrer_policy: Option<String>,
    pub feature_policy: Option<String>,
    pub permissions_policy: Option<String>,
    pub security_headers_ok: bool,
}

/// No security header recorded.
pub open spec fn is_blank_security(h: SecurityHeaders) -> bool {
    &&& h.strict_transport_security is None && h.content_security_policy is None
    &&& h.x_content_type_options is None && h.x_frame_options is None
    &&& h.x_xss_protection is None && h.referrer_policy is None
    &&& h.feature_policy is None && h.permissions_policy is None
    &&& !h.security_headers_ok
}

impl Default for SecurityHeaders {
    fn default() -> (h: Self)
        ensures
            is_blank_security(h),
    {
        SecurityHeaders {
            strict_transport_security: None,
            content_security_policy: None,
            x_content_type_options: None,
            x_frame_options: None,
            x_xss_protection: None,
            referrer_policy: None,
            feature_policy: None,
            permissions_policy: None,
            security_headers_ok: false,
        }
    }
}

/// Kinds of content rules.
#[derive(PartialEq, Eq, Structural, Clone, Copy, Debug)]
pub enum ContentVerificationRules {
    Contains,
    NotContains,
    Regex,
    Default,
}

impl Default for ContentVerificationRules {
    fn default() -> (r: Self)
        ensures
            r == ContentVerificationRules::Default,
    {
        ContentVerificationRules::Default
    }
}

/// Outcome of checking a response body against the content rules.
#[derive(Clone, Debug)]
pub struct ContentVerificationResult {
    pub match_rules: Vec<ContentVerificationRulesResult>,
    pub failed_rules: Vec<ContentVerificationRulesResult>,
}

impl Default for ContentVerificationResult {
    fn default() -> (r: Self)
        ensures
            r.match_rules@.len() == 0 && r.failed_rules@.len() == 0,
    {
        ContentVerificationResult { match_rules: Vec::new(), failed_rules: Vec::new() }
    }
}

/// Business-level availability indicators (name, value).
#[derive(Clone, Debug)]
pub struct AdvancedAvailability {
    pub bussiness_metrics: Vec<(String, String)>,
}

impl Default for AdvancedAvailability {
    fn default() -> (r: Self)
        ensures
            r.bussiness_metrics@.len() == 0,
    {
        AdvancedAvailability { bussiness_metrics: Vec::new() }
    }
}

/// One content rule: what to look for and how.
#[derive(Clone, Debug)]
pub struct ContentVerificationRulesSingle {
    pub rule_type: ContentVerificationRules,
    pub rule_content: String,
    pub rule_description: String,
}

/// Pass/fail of a check.
#[derive(PartialEq, Eq, Structural, Clone, Copy, Debug)]
pub enum StatusInfo {
    Success,
    Failed,
    Unknown,
}

impl Default for StatusInfo {
    fn default() -> (s: Self)
        ensures
            s == StatusInfo::Unknown,
    {
        StatusInfo::Unknown
    }
}

/// Result of one content rule.
#[derive(Clone, Debug)]
pub struct ContentVerificationRulesResult {
    pub rule_id: u64,
    pub status: StatusInfo,
    pub message: String,
    pub rules: ContentVerificationRulesSingle,
}

/// Kinds of alert rules.
#[derive(PartialEq, Eq, Structural, Clone, Copy, Debug)]
pub enum AlertRuleTypes {
    ResponseCode,
    Unknown,
}

impl Default for AlertRuleTypes {
    fn default() -> (t: Self)
        ensures
            t == AlertRuleTypes::Unknown,
    {
        AlertRuleTypes::Unknown
    }
}

/// One alert rule.
#[derive(Clone, Debug)]
pub struct AlertRuleDetail {
    pub rule_type: AlertRuleTypes,
    pub condition: NotifyCondition,
}

/// Alert settings of a monitor: where to notify and on which rules.
#[derive(Clone, Debug)]
pub struct AlertVerificationRules {
    pub notify_type: String,
    pub notify_config: NotifyConfig,
    pub rules: Vec<AlertRuleDetail>,
}

impl Default for AlertVerificationRules {
    fn default() -> (r: Self)
        ensures
            r.notify_type@.len() == 0,
            r.notify_config.webhook_url@.len() == 0,
            r.rules@.len() == 0,
    {
        AlertVerificationRules {
            notify_type: String::new(),
            notify_config: NotifyConfig { webhook_url: String::new() },
            rules: Vec::new(),
        }
    }
}

/// Where notifications go.
#[derive(Clone, Debug)]
pub struct NotifyConfig {
    pub webhook_url: String,
}

/// Status codes that trigger (or, listed in `no_contains`, do not trigger)
/// an alert, and a pattern on the status code text.
#[derive(Clone, Debug)]
pub struct NotifyCondition {
    pub no_contains: Vec<u16>,
    pub contains: Vec<u16>,
    pub regex: String,
}

/// A monitor's own configuration, as stored with it.
#[derive(Debug)]
pub struct SelfDefineMonitorConfig {
    pub target: Option<String>,
    pub monitor_type: MonitorType,
    pub method: Option<HttpMethodTypes>,
    pub interval: Option<u64>,
    pub timeout: Option<u64>,
    pub params: Option<Vec<(String, String)>>,
    pub headers: Option<Vec<(String, String)>>,
    pub body: Option<HttpBody>,
    pub content_evaluation_rules: Option<Vec<ContentVerificationRulesSingle>>,
    pub alert_rules: Option<AlertVerificationRules>,
}

/// Everything an HTTP check found out.
#[derive(Clone, Debug)]
pub struct HttpMonitorResult {
    pub basic_avaliable: BasicAvailability,
    pub response_headers: SecurityHeaders,
    pub performance_timings: PerformanceTimings,
    pub certificate_info: CertificateInfo,
    pub content_verification: ContentVerificationResult,
    pub advanced_avaliable: AdvancedAvailability,
}

/// An HTTP result that records nothing.
pub open spec fn is_blank_http_result(r: HttpMonitorResult) -> bool {
    &&& is_unreached(r.basic_avaliable)
    &&& is_blank_security(r.response_headers)
    &&& is_zero_timings(r.performance_timings)
    &&& is_blank_certificate(r.certificate_info)
    &&& r.content_verification.match_rules@.len() == 0
    &&& r.content_verification.failed_rules@.len() == 0
    &&& r.advanced_avaliable.bussiness_metrics@.len() == 0
}

impl Default for HttpMonitorResult {
    fn default() -> (r: Self)
        ensures
            is_blank_http_result(r),
    {
        HttpMonitorResult {
            basic_avaliable: BasicAvailability::default(),
            response_headers: SecurityHeaders::default(),
            performance_timings: PerformanceTimings::default(),
            certificate_info: CertificateInfo::default(),
            content_verification: ContentVerificationResult::default(),
            advanced_avaliable: AdvancedAvailability::default(),
        }
    }
}

/// A header value the HTTP library accepts: every byte of its UTF-8 form is
/// an accepted header-value byte.
pub open spec fn header_value_ok(v: Seq<char>) -> bool {
    forall|i: int| 0 <= i < encode_utf8(v).len() ==> header_value_byte(#[trigger] encode_utf8(v)[i])
}

/// No two entries of a header table share a name.
pub open spec fn names_distinct(m: Seq<(Seq<char>, Seq<char>)>) -> bool {
    forall|i: int, j: int| 0 <= i < m.len() && 0 <= j < m.len() && i != j ==> #[trigger] m[i].0 != #[trigger] m[j].0
}

/// The header table after inserting `value` under `name`: an entry of that
/// name gets the new value in place; otherwise the entry is added at the
/// end.
pub open spec fn header_insert(m: Seq<(Seq<char>, Seq<char>)>, name: Seq<char>, value: Seq<char>) -> Seq<(Seq<char>, Seq<char>)> {
    if exists|i: int| 0 <= i < m.len() && #[trigger] m[i].0 == name {
        let i = choose|i: int| 0 <= i < m.len() && #[trigger] m[i].0 == name;
        m.update(i, (name, value))
    } else {
        m.push((name, value))
    }
}

/// The request header map built from the configured pairs, in order: each
/// pair whose name and value the HTTP library accepts is inserted under the
/// name as the library stores it (ASCII letters lowered), a later value of
/// the same name replacing an earlier one.
pub open spec fn accepted_headers(hs: Seq<(String, String)>) -> Seq<(Seq<char>, Seq<char>)>
    decreases hs.len(),
{
    if hs.len() == 0 {
        Seq::empty()
    } else {
        let p = accepted_headers(hs.drop_last());
        let (k, v) = hs.last();
        if header_name_valid(k@) && header_value_ok(v@) {
            header_insert(p, header_name_text(k@), v@)
        } else {
            p
        }
    }
}

/// Headers as (name text, value text) pairs.
pub open spec fn header_pairs(hs: Seq<(String, String)>) -> Seq<(Seq<char>, Seq<char>)> {
    hs.map_values(|p: (String, String)| (p.0@, p.1@))
}

proof fn lemma_header_insert_at(m: Seq<(Seq<char>, Seq<char>)>, name: Seq<char>, value: Seq<char>, j: int)
    requires
        names_distinct(m),
        0 <= j < m.len(),
        m[j].0 == name,
    ensures
        header_insert(m, name, value) == m.update(j, (name, value)),
        names_distinct(m.update(j, (name, value))),
{
    let i = choose|i: int| 0 <= i < m.len() && #[trigger] m[i].0 == name;
    assert(m[j].0 == name);
    assert(i == j);
    let u = m.update(j, (name, value));
    assert forall|a: int, b: int| 0 <= a < u.len() && 0 <= b < u.len() && a != b implies #[trigger] u[a].0 != #[trigger] u[b].0 by {
        assert(u[a].0 == m[a].0);
        assert(u[b].0 == m[b].0);
    }
}

proof fn lemma_header_insert_new(m: Seq<(Seq<char>, Seq<char>)>, name: Seq<char>, value: Seq<char>)
    requires
        names_distinct(m),
        forall|i: int| 0 <= i < m.len() ==> #[trigger] m[i].0 != name,
    ensures
        header_insert(m, name, value) == m.push((name, value)),
        names_distinct(m.push((name, value))),
{
    let u = m.push((name, value));
    assert forall|a: int, b: int| 0 <= a < u.len() && 0 <= b < u.len() && a != b implies #[trigger] u[a].0 != #[trigger] u[b].0 by {
        if a < m.len() {
            assert(u[a] == m[a]);
        }
        if b < m.len() {
            assert(u[b] == m[b]);
        }
    }
}

/// The header map built from the configured pairs: the pairs the HTTP
/// library accepts, under their stored names, one value per name.
pub fn filter_valid_headers(hs: &Vec<(String, String)>) -> (r: Vec<(String, String)>)
    ensures
        header_pairs(r@) == accepted_headers(hs@),
        names_distinct(header_pairs(r@)),
{
    let mut r: Vec<(String, String)> = Vec::new();
    let mut i: usize = 0;
    assert(hs@.take(0) =~= Seq::<(String, String)>::empty());
    assert(header_pairs(r@) =~= Seq::<(Seq<char>, Seq<char>)>::empty());
    while i < hs.len()
        invariant
            i <= hs@.len(),
            header_pairs(r@) == accepted_headers(hs@.take(i as int)),
            names_distinct(header_pairs(r@)),
        decreases hs@.len() - i,
    {
        let (k, v) = &hs[i];
        proof {
            assert(hs@.take(i + 1).drop_last() =~= hs@.take(i as int));
            assert(hs@.take(i + 1).last() == hs@[i as int]);
        }
        let parsed = header_name_parse(k.as_str());
        let value_text = v.as_str();
        let value_ok = header_value_parses(value_text);
        assert(value_text.spec_bytes() == encode_utf8(v@));
        assert(value_ok == header_value_ok(v@)) by {
            if value_ok {
                assert forall|j: int| 0 <= j < encode_utf8(v@).len() implies header_value_byte(#[trigger] encode_utf8(v@)[j]) by {
                    assert(header_value_byte(value_text.spec_bytes()[j]));
                }
            } else {
                let j = choose|j: int| 0 <= j < value_text.spec_bytes().len() && !header_value_byte(#[trigger] value_text.spec_bytes()[j]);
                assert(!header_value_byte(encode_utf8(v@)[j]));
            }
        }
        match parsed {
            Some(name) => {
                if value_ok {
                    let ghost before = header_pairs(r@);
                    let ghost nm = name@;
                    let mut j: usize = 0;
                    let mut found = false;
                    while j < r.len()
                        invariant_except_break
                            !found,
                        invariant
                            j <= r@.len(),
                            before == header_pairs(r@),
                            nm == name@,
                            forall|q: int| 0 <= q < j ==> #[trigger] before[q].0 != nm,
                        ensures
                            j <= r@.len(),
                            found ==> j < r@.len() && before[j as int].0 == nm,
                            !found ==> forall|q: int| 0 <= q < r@.len() ==> #[trigger] before[q].0 != nm,
                        decreases r@.len() - j,
                    {
                        assert(before[j as int].0 == r@[j as int].0@);
                        if str_eq(r[j].0.as_str(), name.as_str()) {
                            found = true;
                            break;
                        }
                        j = j + 1;
                    }
                    if found {
                        proof {
                            lemma_header_insert_at(before, nm, v@, j as int);
                        }
                        r.set(j, (name, v.clone()));
                        assert(header_pairs(r@) =~= before.update(j as int, (nm, v@)));
                    } else {
                        proof {
                            lemma_header_insert_new(before, nm, v@);
                        }
                        r.push((name, v.clone()));
                        assert(header_pairs(r@) =~= before.push((nm, v@)));
                    }
                }
            },
            None => {},
        }
        i = i + 1;
    }
    assert(hs@.take(hs@.len() as int) =~= hs@);
    r
}

/// The monitor settings used when the stored configuration cannot be read.
pub open spec fn is_fallback_config(p: SelfDefineMonitorConfig) -> bool {
    &&& p.target is None
    &&& p.monitor_type == MonitorType::Unknown
    &&& p.method is None && p.interval is None && p.timeout is None
    &&& p.params is None && p.headers is None && p.body is None
    &&& p.content_evaluation_rules is None && p.alert_rules is None
}

/// The check configuration of a stored monitor, given its own settings as
/// read from `config_json` (`None` when they could not be read, in which case
/// the fallback settings apply). HTTP monitors get HTTP settings with GET and
/// a ten-second timeout unless the settings say otherwise; other kinds are
/// not supported.
pub open spec fn monitor_config_from(
    m: MonitorConfig,
    model: MonitorConfigModel,
    p: SelfDefineMonitorConfig,
) -> bool {
    &&& m.target == Some(model.target)
    &&& m.monitor_type == p.monitor_type
    &&& m.interval == p.interval
    &&& if model.monitor_type@ == "HTTP"@ {
        m.details matches MonitorConfigDetail::Http(h) && {
            &&& h.url == model.target
            &&& h.method == match p.method { Some(x) => x, None => HttpMethodTypes::Get }
            &&& h.timeout == match p.timeout { Some(t) => t, None => 10 }
            &&& (h.headers is Some <==> p.headers is Some)
            &&& (h.headers matches Some(hs) ==> header_pairs(hs@) == accepted_headers(p.headers->0@))
            &&& h.body == p.body
            &&& h.rules == p.content_evaluation_rules
            &&& h.alert_config == p.alert_rules
        }
    } else {
        m.details matches MonitorConfigDetail::Unknown(u) && u.description@ == "Unsupported monitor type"@
    }
}

pub fn convert_to_monitor_config(config: &MonitorConfigModel, parsed: Option<SelfDefineMonitorConfig>) -> (m: MonitorConfig)
    ensures
        match parsed {
            Some(p) => monitor_config_from(m, *config, p),
            None => exists|p: SelfDefineMonitorConfig| is_fallback_config(p) && monitor_config_from(m, *config, p),
        },
{
    let ghost parsed_in = parsed;
    let config_json = match parsed {
        Some(p) => p,
        None => SelfDefineMonitorConfig {
            target: None,
            monitor_type: MonitorType::Unknown,
            method: None,
            interval: None,
            timeout: None,
            params: None,
            headers: None,
            body: None,
            content_evaluation_rules: None,
            alert_rules: None,
        },
    };
    let ghost p = config_json;
    assert(parsed_in is None ==> is_fallback_config(p));
    let SelfDefineMonitorConfig { target: _, monitor_type, method, interval, timeout, params: _, headers, body, content_evaluation_rules, alert_rules } = config_json;
    if str_eq(config.monitor_type.as_str(), "HTTP") {
        let headers = match &headers {
            Some(hdrs) => Some(filter_valid_headers(hdrs)),
            None => None,
        };
        let http_config = HttpMonitorConfig {
            url: config.target.clone(),
            method: match method {
                Some(x) => x,
                None => HttpMethodTypes::Get,
            },
            timeout: match timeout {
                Some(t) => t,
                None => 10,
            },
            headers,
            body,
            rules: content_evaluation_rules,
            alert_config: alert_rules,
        };
        let m = MonitorConfig {
            target: Some(config.target.clone()),
            monitor_type,
            interval,
            details: MonitorConfigDetail::Http(http_config),
        };
        assert(monitor_config_from(m, *config, p));
        m
    } else {
        let m = MonitorConfig {
            target: Some(config.target.clone()),
            monitor_type,
            interval,
            details: MonitorConfigDetail::Unknown(UnknownQueryConfig { description: String::from_str("Unsupported monitor type") }),
        };
        assert(monitor_config_from(m, *config, p));
        m
    }
}

} // verus!
