//! Alert rules: which check results call for a notification, with what
//! message, and through which channel.
use vstd::prelude::*;
use vstd::string::*;
use crate::external::{debug_quoted, debug_text, regex_compiles, regex_finds, regex_is_match, regex_is_valid};
use crate::monitor_types::{CheckResult, CheckResultDetail};
use crate::text::{joined, str_eq};
use crate::tools_types::{AlertRuleDetail, AlertRuleTypes, AlertVerificationRules, MonitorType, NotifyCondition, NotifyConfig};

verus! {

// ---------------------------------------------------------------------------
// Decimal and list texts.

/// The character of a decimal digit.
pub open spec fn digit_char(d: int) -> char {
    (48 + d) as char
}

/// The decimal text of a number, without leading zeros.
pub open spec fn decimal(n: nat) -> Seq<char>
    decreases n,
{
    if n < 10 {
        seq![digit_char(n as int)]
    } else {
        decimal(n / 10).push(digit_char((n % 10) as int))
    }
}

fn digit_text(d: u16) -> (r: &'static str)
    requires
        d < 10,
    ensures
        r@ == seq![digit_char(d as int)],
{
    proof {
        reveal_strlit("0");
        reveal_strlit("1");
        reveal_strlit("2");
        reveal_strlit("3");
        reveal_strlit("4");
        reveal_strlit("5");
        reveal_strlit("6");
        reveal_strlit("7");
        reveal_strlit("8");
        reveal_strlit("9");
    }
    let r = match d {
        0 => "0",
        1 => "1",
        2 => "2",
        3 => "3",
        4 => "4",
        5 => "5",
        6 => "6",
        7 => "7",
        8 => "8",
        _ => "9",
    };
    assert(r@ =~= seq![digit_char(d as int)]);
    r
}

/// The decimal text of a status code.
pub fn decimal_string(n: u16) -> (r: String)
    ensures
        r@ == decimal(n as nat),
    decreases n,
{
    if n < 10 {
        String::from_str(digit_text(n))
    } else {
        let mut s = decimal_string(n / 10);
        s.append(digit_text(n % 10));
        s
    }
}

/// The texts of a list of codes.
pub open spec fn decimals(v: Seq<u16>) -> Seq<Seq<char>> {
    v.map_values(|c: u16| decimal(c as nat))
}

/// The `Debug` rendering of a list of codes: `[a, b, c]`.
pub open spec fn code_list_text(v: Seq<u16>) -> Seq<char> {
    "["@ + joined(decimals(v), ", "@) + "]"@
}

pub fn code_list_string(v: &Vec<u16>) -> (r: String)
    ensures
        r@ == code_list_text(v@),
{
    let mut inner = String::new();
    let mut i: usize = 0;
    while i < v.len()
        invariant
            i <= v@.len(),
            inner@ == joined(decimals(v@).take(i as int), ", "@),
        decreases v@.len() - i,
    {
        proof {
            assert(decimals(v@).take(i + 1).drop_last() =~= decimals(v@).take(i as int));
            assert(decimals(v@).take(i + 1).last() == decimal(v@[i as int] as nat));
        }
        let d = decimal_string(v[i]);
        if i == 0 {
            inner.append(d.as_str());
            assert(inner@ =~= joined(decimals(v@).take(1), ", "@));
        } else {
            inner.append(", ");
            inner.append(d.as_str());
        }
        i = i + 1;
    }
    assert(decimals(v@).take(v@.len() as int) =~= decimals(v@));
    let mut r = String::from_str("[");
    r.append(inner.as_str());
    r.append("]");
    r
}

// ---------------------------------------------------------------------------
// Notification channels.

/// Where a notification goes.
#[derive(PartialEq, Eq, Structural, Clone, Copy, Debug)]
pub enum NotifyChannel {
    Email,
    Sms,
    Feishu,
    Unknown,
}

/// The channel named by a notify type.
pub open spec fn channel_of(notify_type: Seq<char>) -> NotifyChannel {
    if notify_type == "EMAIL"@ {
        NotifyChannel::Email
    } else if notify_type == "SMS"@ {
        NotifyChannel::Sms
    } else if notify_type == "FEISHU"@ {
        NotifyChannel::Feishu
    } else {
        NotifyChannel::Unknown
    }
}

/// Sends alert messages through the configured channel.
pub struct NotifyEngine {
    pub notify_type: String,
    pub notify_config: NotifyConfig,
}

impl NotifyEngine {
    pub fn new(notify_type: String, notify_config: NotifyConfig) -> (e: Self)
        ensures
            e.notify_type == notify_type,
            e.notify_config == notify_config,
    {
        NotifyEngine { notify_type, notify_config }
    }

    /// The channel alert messages go through.
    pub fn channel(&self) -> (c: NotifyChannel)
        ensures
            c == channel_of(self.notify_type@),
    {
        if str_eq(self.notify_type.as_str(), "EMAIL") {
            NotifyChannel::Email
        } else if str_eq(self.notify_type.as_str(), "SMS") {
            NotifyChannel::Sms
        } else if str_eq(self.notify_type.as_str(), "FEISHU") {
            NotifyChannel::Feishu
        } else {
            NotifyChannel::Unknown
        }
    }
}

// ---------------------------------------------------------------------------
// Alert rules.

/// `j` is the first rule on response codes.
pub open spec fn is_first_code_rule(rules: Seq<AlertRuleDetail>, j: int) -> bool {
    &&& 0 <= j < rules.len()
    &&& rules[j].rule_type == AlertRuleTypes::ResponseCode
    &&& forall|k: int| 0 <= k < j ==> #[trigger] rules[k].rule_type != AlertRuleTypes::ResponseCode
}

/// The text a status-code pattern is matched against: the code in decimal,
/// or the empty text when there is no code.
pub open spec fn status_code_text(code: Option<u16>) -> Seq<char> {
    match code {
        Some(c) => decimal(c as nat),
        None => Seq::empty(),
    }
}

/// The code that the lists are checked against: the status code, or 0.
pub open spec fn code_or_zero(code: Option<u16>) -> u16 {
    match code {
        Some(c) => c,
        None => 0,
    }
}

/// The alert a response-code rule raises for a status code: the code is in
/// the alert list, or missing from the allowed list, or (with a non-empty
/// pattern) its text matches the pattern.
pub open spec fn code_alert(cond: NotifyCondition, code: Option<u16>) -> Option<Seq<char>> {
    let c = code_or_zero(code);
    if cond.contains@.contains(c) {
        Some("Response code "@ + decimal(c as nat) + " triggered alert, in contains list: "@ + code_list_text(cond.contains@))
    } else if !cond.no_contains@.contains(c) {
        Some("Response code "@ + decimal(c as nat) + " triggered alert, not in no_contains list: "@ + code_list_text(cond.no_contains@))
    } else if cond.regex@.len() > 0 && regex_finds(cond.regex@, status_code_text(code)) {
        Some("Response code "@ + decimal(c as nat) + " triggered alert, regex matched: "@ + debug_text(cond.regex@))
    } else {
        None
    }
}

/// The pattern of a rule is consulted for this code (so it must compile).
pub open spec fn code_rule_reaches_pattern(cond: NotifyCondition, code: Option<u16>) -> bool {
    let c = code_or_zero(code);
    !cond.contains@.contains(c) && cond.no_contains@.contains(c)
}

/// The first rule on response codes, if any.
pub open spec fn first_code_rule(rules: Seq<AlertRuleDetail>) -> Option<int> {
    if exists|j: int| is_first_code_rule(rules, j) {
        Some(choose|j: int| is_first_code_rule(rules, j))
    } else {
        None
    }
}

/// The alert for a check result under the rules: only successful HTTP checks
/// are examined, and only the first response-code rule decides.
/// The alert message the first response-code rule calls for on a result
/// with HTTP details, whatever its status or kind.
pub open spec fn http_alert_for(rules: Seq<AlertRuleDetail>, result: CheckResult) -> Option<Seq<char>> {
    match first_code_rule(rules) {
        None => None,
        Some(j) => match result.details {
            CheckResultDetail::Http(h) => code_alert(rules[j].condition, h.basic_avaliable.res_status_code),
            _ => None,
        },
    }
}

/// The alert message a check result calls for: only successful HTTP checks
/// are looked at.
pub open spec fn alert_for(rules: Seq<AlertRuleDetail>, result: CheckResult) -> Option<Seq<char>> {
    if !result.status || result.monitor_type != MonitorType::Http {
        None
    } else {
        http_alert_for(rules, result)
    }
}

/// The pattern that the first response-code rule consults for this result,
/// if it consults one, compiles.
pub open spec fn http_pattern_ready(rules: Seq<AlertRuleDetail>, result: CheckResult) -> bool {
    match first_code_rule(rules) {
        None => true,
        Some(j) => match result.details {
            CheckResultDetail::Http(h) => code_rule_reaches_pattern(rules[j].condition, h.basic_avaliable.res_status_code)
                ==> regex_compiles(rules[j].condition.regex@),
            _ => true,
        },
    }
}

/// The pattern consulted for this result, if one is, compiles.
pub open spec fn alert_pattern_ready(rules: Seq<AlertRuleDetail>, result: CheckResult) -> bool {
    result.status && result.monitor_type == MonitorType::Http ==> http_pattern_ready(rules, result)
}

/// Decides whether a check result raises an alert, and which.
pub struct AlertsEngine {
    pub notify: NotifyEngine,
    pub alert_rules: AlertVerificationRules,
}

fn copy_codes(v: &Vec<u16>) -> (r: Vec<u16>)
    ensures
        r@ == v@,
{
    let mut r: Vec<u16> = Vec::new();
    let mut i: usize = 0;
    while i < v.len()
        invariant
            i <= v@.len(),
            r@ == v@.take(i as int),
        decreases v@.len() - i,
    {
        r.push(v[i]);
        assert(r@ =~= v@.take(i + 1));
        i = i + 1;
    }
    assert(v@.take(v@.len() as int) =~= v@);
    r
}

/// A copy of a rule: same kind, same codes, same pattern.
pub open spec fn same_rule(a: AlertRuleDetail, b: AlertRuleDetail) -> bool {
    &&& a.rule_type == b.rule_type
    &&& a.condition.contains@ == b.condition.contains@
    &&& a.condition.no_contains@ == b.condition.no_contains@
    &&& a.condition.regex@ == b.condition.regex@
}

/// A copy of alert settings.
pub open spec fn same_rules(a: AlertVerificationRules, b: AlertVerificationRules) -> bool {
    &&& a.notify_type@ == b.notify_type@
    &&& a.notify_config.webhook_url@ == b.notify_config.webhook_url@
    &&& a.rules@.len() == b.rules@.len()
    &&& forall|i: int| 0 <= i < a.rules@.len() ==> same_rule(#[trigger] a.rules@[i], b.rules@[i])
}

fn copy_alert_rules(a: &AlertVerificationRules) -> (r: AlertVerificationRules)
    ensures
        same_rules(r, *a),
{
    let mut rules: Vec<AlertRuleDetail> = Vec::new();
    let mut i: usize = 0;
    while i < a.rules.len()
        invariant
            i <= a.rules@.len(),
            rules@.len() == i,
            forall|k: int| 0 <= k < i ==> same_rule(#[trigger] rules@[k], a.rules@[k]),
        decreases a.rules@.len() - i,
    {
        let rule = &a.rules[i];
        rules.push(AlertRuleDetail {
            rule_type: rule.rule_type,
            condition: NotifyCondition {
                no_contains: copy_codes(&rule.condition.no_contains),
                contains: copy_codes(&rule.condition.contains),
                regex: rule.condition.regex.clone(),
            },
        });
        i = i + 1;
    }
    AlertVerificationRules {
        notify_type: a.notify_type.clone(),
        notify_config: NotifyConfig { webhook_url: a.notify_config.webhook_url.clone() },
        rules,
    }
}

/// Alert settings copied rule by rule decide every check result alike: an
/// engine built from settings raises exactly the alerts the settings call
/// for, and needs the same patterns to compile.
pub proof fn lemma_copied_rules_alert_alike(a: AlertVerificationRules, b: AlertVerificationRules, result: CheckResult)
    requires
        same_rules(a, b),
    ensures
        alert_for(a.rules@, result) == alert_for(b.rules@, result),
        alert_pattern_ready(a.rules@, result) == alert_pattern_ready(b.rules@, result),
{
    let ra = a.rules@;
    let rb = b.rules@;
    assert forall|j: int| #[trigger] is_first_code_rule(ra, j) implies is_first_code_rule(rb, j) by {
        assert(same_rule(ra[j], rb[j]));
        assert forall|k: int| 0 <= k < j implies #[trigger] rb[k].rule_type != AlertRuleTypes::ResponseCode by {
            assert(same_rule(ra[k], rb[k]));
        }
    }
    assert forall|j: int| #[trigger] is_first_code_rule(rb, j) implies is_first_code_rule(ra, j) by {
        assert(same_rule(ra[j], rb[j]));
        assert forall|k: int| 0 <= k < j implies #[trigger] ra[k].rule_type != AlertRuleTypes::ResponseCode by {
            assert(same_rule(ra[k], rb[k]));
        }
    }
    if exists|j: int| is_first_code_rule(ra, j) {
        let ja = choose|j: int| is_first_code_rule(ra, j);
        let jb = choose|j: int| is_first_code_rule(rb, j);
        assert(is_first_code_rule(rb, ja));
        lemma_first_code_rule_unique(rb, ja, jb);
        assert(same_rule(ra[ja], rb[ja]));
        assert(ra[ja].condition.contains@ == rb[ja].condition.contains@);
    } else {
        assert forall|j: int| !is_first_code_rule(rb, j) by {
            if is_first_code_rule(rb, j) {
                assert(is_first_code_rule(ra, j));
            }
        }
    }
}

proof fn lemma_first_code_rule_unique(rules: Seq<AlertRuleDetail>, a: int, b: int)
    requires
        is_first_code_rule(rules, a),
        is_first_code_rule(rules, b),
    ensures
        a == b,
{
    if a < b {
        assert(rules[a].rule_type != AlertRuleTypes::ResponseCode);
    } else if b < a {
        assert(rules[b].rule_type != AlertRuleTypes::ResponseCode);
    }
}

/// A check result of a failed check, or of another kind than HTTP, never
/// raises an alert, whatever the rules.
pub proof fn lemma_only_successful_http_checks_alert(rules: Seq<AlertRuleDetail>, result: CheckResult)
    requires
        !result.status || result.monitor_type != MonitorType::Http,
    ensures
        alert_for(rules, result) is None,
        alert_pattern_ready(rules, result),
{
}

/// For a successful HTTP check, the first response-code rule alone decides:
/// a code (0 when none was received) in its `contains` list, or missing
/// from its `no_contains` list, raises an alert; a code in `no_contains`
/// and not in `contains` raises none unless the rule's non-empty pattern
/// matches the code's text. Later rules, of any kind, play no part.
pub proof fn lemma_first_code_rule_decides(rules: Seq<AlertRuleDetail>, result: CheckResult, j: int)
    requires
        result.status,
        result.monitor_type == MonitorType::Http,
        result.details is Http,
        0 <= j < rules.len(),
        rules[j].rule_type == AlertRuleTypes::ResponseCode,
        forall|k: int| 0 <= k < j ==> #[trigger] rules[k].rule_type != AlertRuleTypes::ResponseCode,
    ensures
        ({
            let h = result.details->Http_0;
            let code = match h.basic_avaliable.res_status_code { Some(c) => c, None => 0u16 };
            let cond = rules[j].condition;
            &&& cond.contains@.contains(code) ==> alert_for(rules, result) is Some
            &&& !cond.no_contains@.contains(code) ==> alert_for(rules, result) is Some
            &&& (!cond.contains@.contains(code) && cond.no_contains@.contains(code) && cond.regex@.len() == 0)
                ==> alert_for(rules, result) is None
            &&& forall|later: Seq<AlertRuleDetail>| #[trigger] alert_for(rules + later, result) == alert_for(rules, result)
        }),
{
    assert(is_first_code_rule(rules, j));
    let c = choose|i: int| is_first_code_rule(rules, i);
    lemma_first_code_rule_unique(rules, c, j);
    assert forall|later: Seq<AlertRuleDetail>| #[trigger] alert_for(rules + later, result) == alert_for(rules, result) by {
        let all = rules + later;
        assert(all[j] == rules[j]);
        assert forall|k: int| 0 <= k < j implies #[trigger] all[k].rule_type != AlertRuleTypes::ResponseCode by {
            assert(all[k] == rules[k]);
        }
        assert(is_first_code_rule(all, j));
        let c2 = choose|i: int| is_first_code_rule(all, i);
        lemma_first_code_rule_unique(all, c2, j);
    }
}

/// Rules without a response-code rule never raise an alert.
pub proof fn lemma_no_code_rule_no_alert(rules: Seq<AlertRuleDetail>, result: CheckResult)
    requires
        forall|k: int| 0 <= k < rules.len() ==> #[trigger] rules[k].rule_type != AlertRuleTypes::ResponseCode,
    ensures
        alert_for(rules, result) is None,
{
    assert forall|j: int| !is_first_code_rule(rules, j) by {
        if 0 <= j < rules.len() {
            assert(rules[j].rule_type != AlertRuleTypes::ResponseCode);
        }
    }
}

impl AlertsEngine {
    pub fn new(alert_rule: AlertVerificationRules) -> (e: Self)
        ensures
            same_rules(e.alert_rules, alert_rule),
            e.notify.notify_type@ == alert_rule.notify_type@,
            e.notify.notify_config.webhook_url@ == alert_rule.notify_config.webhook_url@,
    {
        let alert_rules = copy_alert_rules(&alert_rule);
        AlertsEngine { alert_rules, notify: NotifyEngine::new(alert_rule.notify_type, alert_rule.notify_config) }
    }

    /// The alert message a check result calls for, if any.
    pub fn check(&self, check_result: CheckResult) -> (r: Option<String>)
        requires
            alert_pattern_ready(self.alert_rules.rules@, check_result),
        ensures
            r is Some <==> alert_for(self.alert_rules.rules@, check_result) is Some,
            r matches Some(m) ==> m@ == alert_for(self.alert_rules.rules@, check_result)->0,
    {
        if !check_result.status {
            return None;
        }
        match check_result.monitor_type {
            MonitorType::Http => self.check_http(check_result),
            _ => None,
        }
    }

    /// The alert message of a check result with HTTP details, decided by the
    /// first response-code rule; none for other results.
    pub fn check_http(&self, check_result: CheckResult) -> (r: Option<String>)
        requires
            http_pattern_ready(self.alert_rules.rules@, check_result),
        ensures
            r is Some <==> http_alert_for(self.alert_rules.rules@, check_result) is Some,
            r matches Some(m) ==> m@ == http_alert_for(self.alert_rules.rules@, check_result)->0,
    {
        let rules = &self.alert_rules.rules;
        let mut i: usize = 0;
        while i < rules.len()
            invariant
                i <= rules@.len(),
                rules@ == self.alert_rules.rules@,
                http_pattern_ready(self.alert_rules.rules@, check_result),
                forall|k: int| 0 <= k < i ==> #[trigger] rules@[k].rule_type != AlertRuleTypes::ResponseCode,
            decreases rules@.len() - i,
        {
            if rules[i].rule_type == AlertRuleTypes::ResponseCode {
                proof {
                    assert(is_first_code_rule(rules@, i as int));
                    let c = choose|j: int| is_first_code_rule(rules@, j);
                    lemma_first_code_rule_unique(rules@, c, i as int);
                    assert(first_code_rule(rules@) == Some(i as int));
                }
                return match &check_result.details {
                    CheckResultDetail::Http(http_result) => {
                        let cond = &rules[i].condition;
                        Self::code_alert_message(cond, http_result.basic_avaliable.res_status_code)
                    },
                    _ => None,
                };
            }
            i = i + 1;
        }
        proof {
            assert forall|j: int| !is_first_code_rule(rules@, j) by {
                if 0 <= j < rules@.len() {
                    assert(rules@[j].rule_type != AlertRuleTypes::ResponseCode);
                }
            }
        }
        None
    }

    fn code_alert_message(cond: &NotifyCondition, status_code: Option<u16>) -> (r: Option<String>)
        requires
            code_rule_reaches_pattern(*cond, status_code) ==> regex_compiles(cond.regex@),
        ensures
            r is Some <==> code_alert(*cond, status_code) is Some,
            r matches Some(m) ==> m@ == code_alert(*cond, status_code)->0,
    {
        let code: u16 = match status_code {
            Some(c) => c,
            None => 0,
        };
        if contains_code(&cond.contains, code) {
            let mut m = String::from_str("Response code ");
            m.append(decimal_string(code).as_str());
            m.append(" triggered alert, in contains list: ");
            m.append(code_list_string(&cond.contains).as_str());
            return Some(m);
        }
        if !contains_code(&cond.no_contains, code) {
            let mut m = String::from_str("Response code ");
            m.append(decimal_string(code).as_str());
            m.append(" triggered alert, not in no_contains list: ");
            m.append(code_list_string(&cond.no_contains).as_str());
            return Some(m);
        }
        let code_text = match status_code {
            Some(c) => decimal_string(c),
            None => String::new(),
        };
        let matched = regex_is_match(cond.regex.as_str(), code_text.as_str());
        if !cond.regex.as_str().is_empty() && matched {
            let mut m = String::from_str("Response code ");
            m.append(decimal_string(code).as_str());
            m.append(" triggered alert, regex matched: ");
            m.append(debug_quoted(cond.regex.as_str()).as_str());
            return Some(m);
        }
        None
    }

    /// The alert message a check result calls for, when the pattern it
    /// consults compiles; `None` (where the check would panic) otherwise.
    pub fn try_check(&self, check_result: CheckResult) -> (r: Option<Option<String>>)
        ensures
            r is Some <==> alert_pattern_ready(self.alert_rules.rules@, check_result),
            r matches Some(a) ==> (a is Some <==> alert_for(self.alert_rules.rules@, check_result) is Some),
            r matches Some(a) ==> (a matches Some(m) ==> m@ == alert_for(self.alert_rules.rules@, check_result)->0),
    {
        if self.pattern_ready(&check_result) {
            Some(self.check(check_result))
        } else {
            None
        }
    }

    fn pattern_ready(&self, check_result: &CheckResult) -> (r: bool)
        ensures
            r == alert_pattern_ready(self.alert_rules.rules@, *check_result),
    {
        let rules = &self.alert_rules.rules;
        if !check_result.status || check_result.monitor_type != MonitorType::Http {
            return true;
        }
        let mut i: usize = 0;
        while i < rules.len()
            invariant
                i <= rules@.len(),
                rules@ == self.alert_rules.rules@,
                check_result.status,
                check_result.monitor_type == MonitorType::Http,
                forall|k: int| 0 <= k < i ==> #[trigger] rules@[k].rule_type != AlertRuleTypes::ResponseCode,
            decreases rules@.len() - i,
        {
            if rules[i].rule_type == AlertRuleTypes::ResponseCode {
                proof {
                    assert(is_first_code_rule(rules@, i as int));
                    let c = choose|j: int| is_first_code_rule(rules@, j);
                    lemma_first_code_rule_unique(rules@, c, i as int);
                    assert(first_code_rule(rules@) == Some(i as int));
                }
                return match &check_result.details {
                    CheckResultDetail::Http(h) => {
                        let cond = &rules[i].condition;
                        let code: u16 = match h.basic_avaliable.res_status_code {
                            Some(c) => c,
                            None => 0,
                        };
                        if !contains_code(&cond.contains, code) && contains_code(&cond.no_contains, code) {
                            regex_is_valid(cond.regex.as_str())
                        } else {
                            true
                        }
                    },
                    _ => true,
                };
            }
            i = i + 1;
        }
        proof {
            assert forall|j: int| !is_first_code_rule(rules@, j) by {
                if 0 <= j < rules@.len() {
                    assert(rules@[j].rule_type != AlertRuleTypes::ResponseCode);
                }
            }
        }
        true
    }
}

/// Whether a list of codes holds `code`.
pub fn contains_code(v: &Vec<u16>, code: u16) -> (r: bool)
    ensures
        r == v@.contains(code),
{
    let mut i: usize = 0;
    while i < v.len()
        invariant
            i <= v@.len(),
            forall|k: int| 0 <= k < i ==> #[trigger] v@[k] != code,
        decreases v@.len() - i,
    {
        if v[i] == code {
            assert(v@[i as int] == code);
            return true;
        }
        i = i + 1;
    }
    false
}

} // verus!
