//! Click-stream event model: the outer log carrier, the inner tracking event,
//! the per-session event record and the event-type vocabulary.
use vstd::prelude::*;
use vstd::string::*;
use crate::text::str_eq;
use crate::external::{hour_of_millis, utc_millis_representable};
use crate::help_utils::{lemma_event_counted_once, can_count, can_count_event, can_count_event_exec, can_count_exec, copy_table, device_hist_key, histogram_with_event, night_sums_fit, platform_hist_key, count_sum_from, day_span, device_key, get_peak_hour, get_user_path_by_three, histogram_after_event, init_hour_histogram, is_hour_histogram, is_night_cat, lemma_table_after_count_nonempty, night_owl, peak_hour, platform_key, set_user_device_hist, set_user_hist_config, set_user_platform_hist, sums_fit, table_after_count, table_view, texts, time_diff_to_day, top_three, update_hour_histogram};

verus! {

/// Outer log carrier produced by the log shipper; `message` holds the inner
/// event as a JSON string.
#[derive(Clone, Debug)]
pub struct DataPointLog {
    pub timestamp: String,
    pub metadata: Metadata,
    pub ecs: Ecs,
    pub host: Host,
    pub agent: Agent,
    pub log: LogInfo,
    pub message: String,
    pub tags: Option<Vec<String>>,
    pub input: Option<InputInfo>,
    pub fields: Option<FieldsInfo>,
}

#[derive(Clone, Debug)]
pub struct Metadata {
    pub beat: Option<String>,
    pub ty: Option<String>,
    pub version: Option<String>,
    pub topic: Option<String>,
}

#[derive(Clone, Debug)]
pub struct Ecs {
    pub version: Option<String>,
}

#[derive(Clone, Debug)]
pub struct Host {
    pub name: Option<String>,
}

#[derive(Clone, Debug)]
pub struct Agent {
    pub ty: Option<String>,
    pub ephemeral_id: Option<String>,
    pub hostname: Option<String>,
    pub id: Option<String>,
    pub version: Option<String>,
}

#[derive(Clone, Debug)]
pub struct LogInfo {
    pub offset: Option<i64>,
    pub file: Option<LogFile>,
}

#[derive(Clone, Debug)]
pub struct LogFile {
    pub path: Option<String>,
}

#[derive(Clone, Debug)]
pub struct InputInfo {
    pub ty: Option<String>,
}

#[derive(Clone, Debug)]
pub struct FieldsInfo {
    pub log_topics: Option<String>,
}

/// The inner tracking event carried in `DataPointLog::message`.
#[derive(Debug)]
pub struct InnerEvent {
    pub project: Option<String>,
    pub server_time: Option<String>,
    pub data: Option<InnerData>,
    pub token: Option<String>,
    pub ip: Option<String>,
}

#[derive(Debug)]
pub struct InnerData {
    pub identities: Option<serde_json::Value>,
    pub distinct_id: Option<String>,
    pub lib: Option<LibInfo>,
    pub properties: Option<Properties>,
    pub anonymous_id: Option<String>,
    pub ty: Option<String>,
    pub event: Option<String>,
    pub time: Option<i64>,
    pub _track_id: Option<i64>,
    pub _flush_time: Option<i64>,
}

#[derive(Clone, Debug)]
pub struct LibInfo {
    pub lib: Option<String>,
    pub lib_method: Option<String>,
    pub lib_version: Option<String>,
}

#[derive(Clone, Debug)]
pub struct Properties {
    pub timezone_offset: Option<i32>,
    pub screen_height: Option<i32>,
    pub screen_width: Option<i32>,
    pub viewport_height: Option<i32>,
    pub viewport_width: Option<i32>,
    pub lib: Option<String>,
    pub lib_version: Option<String>,
    pub usr_device: Option<String>,
    pub project: Option<String>,
    pub project_name: Option<String>,
    pub project_id: Option<String>,
    pub person_id: Option<String>,
    pub evt_id: Option<String>,
    pub platform: Option<String>,
    pub chrome_version: Option<String>,
    pub safari_version: Option<String>,
    pub lark: Option<String>,
    pub referrer: Option<String>,
    pub url: Option<String>,
    pub url_path: Option<String>,
    pub title: Option<String>,
    pub is_first_day: Option<bool>,
    pub is_first_time: Option<bool>,
    pub referrer_host: Option<String>,
    pub event_duration: Option<u64>,
}

/// One tracking event placed in a session.
#[derive(Clone, Debug)]
pub struct SessionEventInfo {
    pub session_id: String,
    pub project_code: String,
    pub project_id: String,
    pub project_name: String,
    pub event_type: DataPointEventType,
    pub event_time: i64,
    pub screen_width: Option<i32>,
    pub screen_height: Option<i32>,
    pub viewport_width: Option<i32>,
    pub viewport_height: Option<i32>,
    pub person_code: String,
    pub event_id: String,
    pub event_platform: String,
    pub event_chrome_version: String,
    pub event_safari_version: String,
    pub event_cttq_lark: String,
    pub event_refferer: String,
    pub event_url: String,
    pub event_url_path: String,
    pub event_page_title: String,
    pub event_referrer_host: String,
    pub event_duration: Option<u64>,
    pub usr_device: String,
}

/// The kinds of tracking events.
#[derive(PartialEq, Eq, Structural, Clone, Copy, Debug)]
pub enum DataPointEventType {
    Pageview,
    WebPageLeave,
    CountEvent,
    Exposure,
    WebClick,
    Unknown,
}

/// The wire name of each event type.
pub open spec fn event_type_name(t: DataPointEventType) -> Seq<char> {
    match t {
        DataPointEventType::Pageview => "$pageview"@,
        DataPointEventType::WebPageLeave => "$WebPageLeave"@,
        DataPointEventType::CountEvent => "countEvent"@,
        DataPointEventType::Exposure => "Exposure"@,
        DataPointEventType::WebClick => "$WebClick"@,
        DataPointEventType::Unknown => "Unknown"@,
    }
}

/// The event type named by a wire string; every other string is `Unknown`.
pub open spec fn event_type_of_name(s: Seq<char>) -> DataPointEventType {
    if s == "$pageview"@ {
        DataPointEventType::Pageview
    } else if s == "$WebPageLeave"@ {
        DataPointEventType::WebPageLeave
    } else if s == "countEvent"@ {
        DataPointEventType::CountEvent
    } else if s == "Exposure"@ {
        DataPointEventType::Exposure
    } else if s == "$WebClick"@ {
        DataPointEventType::WebClick
    } else {
        DataPointEventType::Unknown
    }
}

impl DataPointEventType {
    pub fn from_str(s: &str) -> (t: Self)
        ensures
            t == event_type_of_name(s@),
    {
        if str_eq(s, "$pageview") {
            DataPointEventType::Pageview
        } else if str_eq(s, "$WebPageLeave") {
            DataPointEventType::WebPageLeave
        } else if str_eq(s, "countEvent") {
            DataPointEventType::CountEvent
        } else if str_eq(s, "Exposure") {
            DataPointEventType::Exposure
        } else if str_eq(s, "$WebClick") {
            DataPointEventType::WebClick
        } else {
            DataPointEventType::Unknown
        }
    }

    pub fn as_str(&self) -> (s: &'static str)
        ensures
            s@ == event_type_name(*self),
    {
        match self {
            DataPointEventType::Pageview => "$pageview",
            DataPointEventType::WebPageLeave => "$WebPageLeave",
            DataPointEventType::CountEvent => "countEvent",
            DataPointEventType::Exposure => "Exposure",
            DataPointEventType::WebClick => "$WebClick",
            DataPointEventType::Unknown => "Unknown",
        }
    }
}

/// Reading back the wire name of an event type gives the same event type.
pub proof fn lemma_event_type_name_round_trip(t: DataPointEventType)
    ensures
        event_type_of_name(event_type_name(t)) == t,
{
    reveal_strlit("$pageview");
    reveal_strlit("$WebPageLeave");
    reveal_strlit("countEvent");
    reveal_strlit("Exposure");
    reveal_strlit("$WebClick");
    reveal_strlit("Unknown");
    assert("$pageview"@.len() == 9 && "$WebPageLeave"@.len() == 13 && "countEvent"@.len() == 10);
    assert("Exposure"@.len() == 8 && "$WebClick"@.len() == 9 && "Unknown"@.len() == 7);
    assert("$pageview"@[1] != "$WebClick"@[1]);
}

/// The per-user behaviour profile kept across sessions: counters, the hour
/// histogram and the frequency tables of paths, devices, platforms and app
/// versions. The per-day and per-session averages are ratios of these
/// counters; `active_days` is the day count they are taken over.
#[derive(Clone, Debug)]
pub struct UserFeatureVector {
    pub user_id: String,
    pub timestamp: i64,
    pub total_sessions: u64,
    pub total_events: u64,
    pub total_pageviews: u64,
    pub total_clicks: u64,
    pub total_exposures: u64,
    pub total_web_page_leaves: u64,
    pub total_pageview_duration_secs: u64,
    pub active_days: i64,
    pub hours_hist: Vec<(i64, i64)>,
    pub preferred_hour: u8,
    pub is_night_owl: bool,
    pub path_hist: Vec<(String, i64)>,
    pub favorite_page_categories: Vec<String>,
    pub user_device_hist: Vec<(String, i64)>,
    pub user_platform_hist: Vec<(String, i64)>,
    pub favorite_device_types: Vec<String>,
    pub search_history: Vec<String>,
    pub preferred_lark_type: String,
    pub user_lark_hist: Vec<(String, i64)>,
}

/// Days over which the per-day averages are taken after a session at
/// `event_time`: the first session counts as one day, later ones count the
/// whole days since the first session, at least one.
pub open spec fn active_days_after(first: i64, event_time: i64) -> int {
    if first <= 0 {
        1
    } else {
        let d = day_span(first as int, event_time as int);
        if d == 0 {
            1
        } else {
            d
        }
    }
}

/// No counter of the profile overflows when the session is applied.
pub open spec fn can_apply_session(f: UserFeatureVector, s: SessionEventInfo) -> bool {
    &&& f.total_sessions < u64::MAX
    &&& f.total_events < u64::MAX
    &&& (s.event_type == DataPointEventType::Pageview ==> f.total_pageviews < u64::MAX)
    &&& (s.event_type == DataPointEventType::WebClick || s.event_type == DataPointEventType::CountEvent
        ==> f.total_clicks < u64::MAX)
    &&& (s.event_type == DataPointEventType::Exposure ==> f.total_exposures < u64::MAX)
    &&& (s.event_type == DataPointEventType::WebPageLeave ==> f.total_web_page_leaves < u64::MAX)
    &&& (s.event_duration matches Some(d) ==> f.total_pageview_duration_secs + d <= u64::MAX)
    &&& (f.timestamp > 0 ==> s.event_time <= f.timestamp || s.event_time - f.timestamp <= i64::MAX)
    &&& can_count_event(f.hours_hist@, s.event_time)
    &&& sums_fit(histogram_after_event(f.hours_hist@, s.event_time))
    &&& i64::MIN <= count_sum_from(histogram_after_event(f.hours_hist@, s.event_time), 22) * 3 <= i64::MAX
    &&& can_count(table_view(f.path_hist@), s.event_url_path@)
    &&& can_count(table_view(f.user_device_hist@), device_key(s.usr_device@))
    &&& can_count(
        table_view(f.user_platform_hist@),
        platform_key(s.event_platform@, s.event_chrome_version@, s.event_safari_version@),
    )
    &&& can_count(table_view(f.user_lark_hist@), s.event_cttq_lark@)
}

/// `g` is the profile `f` after one more session `s`.
pub open spec fn session_applied(f: UserFeatureVector, g: UserFeatureVector, s: SessionEventInfo) -> bool {
    let hours = histogram_after_event(f.hours_hist@, s.event_time);
    let paths = table_after_count(table_view(f.path_hist@), s.event_url_path@);
    let devices = table_after_count(table_view(f.user_device_hist@), device_key(s.usr_device@));
    let lark = table_after_count(table_view(f.user_lark_hist@), s.event_cttq_lark@);
    &&& g.user_id@ == f.user_id@
    &&& g.timestamp == if f.timestamp <= 0 { s.event_time } else { f.timestamp }
    &&& g.active_days == active_days_after(f.timestamp, s.event_time)
    &&& g.total_sessions == f.total_sessions + 1
    &&& g.total_events == f.total_events + 1
    &&& g.total_pageviews == f.total_pageviews + if s.event_type == DataPointEventType::Pageview { 1int } else { 0 }
    &&& g.total_clicks == f.total_clicks + if s.event_type == DataPointEventType::WebClick
        || s.event_type == DataPointEventType::CountEvent { 1int } else { 0 }
    &&& g.total_exposures == f.total_exposures + if s.event_type == DataPointEventType::Exposure { 1int } else { 0 }
    &&& g.total_web_page_leaves == f.total_web_page_leaves + if s.event_type == DataPointEventType::WebPageLeave { 1int } else { 0 }
    &&& g.total_pageview_duration_secs == f.total_pageview_duration_secs + match s.event_duration {
        Some(d) => d as int,
        None => 0,
    }
    &&& g.hours_hist@ == hours
    &&& g.preferred_hour == peak_hour(hours)
    &&& g.is_night_owl == night_owl(hours)
    &&& table_view(g.path_hist@) == paths
    &&& texts(g.favorite_page_categories@) == top_three(paths)
    &&& table_view(g.user_device_hist@) == devices
    &&& table_view(g.user_platform_hist@) == table_after_count(
        table_view(f.user_platform_hist@),
        platform_key(s.event_platform@, s.event_chrome_version@, s.event_safari_version@),
    )
    &&& texts(g.favorite_device_types@) == top_three(devices)
    &&& g.search_history@.len() == 0
    &&& table_view(g.user_lark_hist@) == lark
    &&& g.preferred_lark_type@ == top_three(lark)[0]
}

impl UserFeatureVector {
    pub fn new(person_code: String) -> (f: Self)
        ensures
            f.user_id@ == person_code@,
            f.timestamp == 0,
            f.total_sessions == 0 && f.total_events == 0 && f.total_pageviews == 0,
            f.total_clicks == 0 && f.total_exposures == 0 && f.total_web_page_leaves == 0,
            f.total_pageview_duration_secs == 0,
            f.active_days == 0,
            is_hour_histogram(f.hours_hist@),
            forall|i: int| 0 <= i < 24 ==> #[trigger] f.hours_hist@[i].1 == 0,
            f.preferred_hour == 0,
            !f.is_night_owl,
            f.path_hist@.len() == 0 && f.favorite_page_categories@.len() == 0,
            f.user_device_hist@.len() == 0 && f.user_platform_hist@.len() == 0,
            f.favorite_device_types@.len() == 0 && f.search_history@.len() == 0,
            f.preferred_lark_type@.len() == 0,
            f.user_lark_hist@.len() == 0,
    {
        UserFeatureVector {
            user_id: person_code,
            timestamp: 0,
            total_sessions: 0,
            total_events: 0,
            total_pageviews: 0,
            total_clicks: 0,
            total_exposures: 0,
            total_web_page_leaves: 0,
            total_pageview_duration_secs: 0,
            active_days: 0,
            hours_hist: init_hour_histogram(),
            preferred_hour: 0,
            is_night_owl: false,
            path_hist: Vec::new(),
            favorite_page_categories: Vec::new(),
            user_device_hist: Vec::new(),
            user_platform_hist: Vec::new(),
            favorite_device_types: Vec::new(),
            search_history: Vec::new(),
            preferred_lark_type: String::new(),
            user_lark_hist: Vec::new(),
        }
    }

    pub fn update_with_session(&mut self, session: &SessionEventInfo)
        requires
            can_apply_session(*old(self), *session),
        ensures
            session_applied(*old(self), *final(self), *session),
    {
        self.total_sessions = self.total_sessions + 1;
        self.total_events = self.total_events + 1;
        match session.event_type {
            DataPointEventType::Pageview => self.total_pageviews = self.total_pageviews + 1,
            DataPointEventType::WebClick => self.total_clicks = self.total_clicks + 1,
            DataPointEventType::Exposure => self.total_exposures = self.total_exposures + 1,
            DataPointEventType::WebPageLeave => self.total_web_page_leaves = self.total_web_page_leaves + 1,
            DataPointEventType::CountEvent => self.total_clicks = self.total_clicks + 1,
            _ => {},
        }
        if let Some(duration) = session.event_duration {
            self.total_pageview_duration_secs = self.total_pageview_duration_secs + duration;
        }
        let days_since_first_session = if self.timestamp <= 0 {
            self.timestamp = session.event_time;
            1
        } else {
            let diff = time_diff_to_day(self.timestamp, session.event_time);
            if diff == 0 {
                1
            } else {
                diff
            }
        };
        self.active_days = days_since_first_session;
        update_hour_histogram(&mut self.hours_hist, session.event_time);
        self.preferred_hour = get_peak_hour(&self.hours_hist);
        self.is_night_owl = is_night_cat(&self.hours_hist);
        self.path_hist = set_user_hist_config(&mut self.path_hist, session.event_url_path.clone());
        self.favorite_page_categories = get_user_path_by_three(copy_table(&self.path_hist));
        self.user_device_hist = set_user_device_hist(&mut self.user_device_hist, session.usr_device.clone());
        self.user_platform_hist = set_user_platform_hist(
            &mut self.user_platform_hist,
            (
                session.event_platform.clone(),
                session.event_chrome_version.clone(),
                session.event_safari_version.clone(),
            ),
        );
        self.favorite_device_types = get_user_path_by_three(copy_table(&self.user_device_hist));
        self.search_history = Vec::new();
        self.user_lark_hist = set_user_hist_config(&mut self.user_lark_hist, session.event_cttq_lark.clone());
        let top_lark = get_user_path_by_three(copy_table(&self.user_lark_hist));
        proof {
            lemma_table_after_count_nonempty(table_view(old(self).user_lark_hist@), session.event_cttq_lark@);
        }
        self.preferred_lark_type = if top_lark.len() > 0 {
            top_lark[0].clone()
        } else {
            String::from_str("unknown")
        };
    }
}

impl UserFeatureVector {
    /// Whether applying the session would keep every counter of the profile
    /// within its integer type.
    pub fn can_apply(&self, session: &SessionEventInfo) -> (r: bool)
        ensures
            r == can_apply_session(*self, *session),
    {
        if self.total_sessions == u64::MAX || self.total_events == u64::MAX {
            return false;
        }
        let counter_ok = match session.event_type {
            DataPointEventType::Pageview => self.total_pageviews < u64::MAX,
            DataPointEventType::WebClick => self.total_clicks < u64::MAX,
            DataPointEventType::CountEvent => self.total_clicks < u64::MAX,
            DataPointEventType::Exposure => self.total_exposures < u64::MAX,
            DataPointEventType::WebPageLeave => self.total_web_page_leaves < u64::MAX,
            DataPointEventType::Unknown => true,
        };
        if !counter_ok {
            return false;
        }
        let duration_ok = match session.event_duration {
            Some(d) => self.total_pageview_duration_secs.checked_add(d).is_some(),
            None => true,
        };
        if !duration_ok {
            return false;
        }
        if self.timestamp > 0 && session.event_time > self.timestamp
            && session.event_time.checked_sub(self.timestamp).is_none() {
            return false;
        }
        if !can_count_event_exec(&self.hours_hist, session.event_time) {
            return false;
        }
        let hours = histogram_with_event(&self.hours_hist, session.event_time);
        if !night_sums_fit(&hours) {
            return false;
        }
        let device = device_hist_key(session.usr_device.as_str());
        let platform = platform_hist_key(
            &(
                session.event_platform.clone(),
                session.event_chrome_version.clone(),
                session.event_safari_version.clone(),
            ),
        );
        can_count_exec(&self.path_hist, session.event_url_path.as_str())
            && can_count_exec(&self.user_device_hist, device.as_str())
            && can_count_exec(&self.user_platform_hist, platform.as_str())
            && can_count_exec(&self.user_lark_hist, session.event_cttq_lark.as_str())
    }

    /// Applies the session when every counter stays within its integer type
    /// (`true`); otherwise leaves the profile as it was (`false`).
    pub fn try_update_with_session(&mut self, session: &SessionEventInfo) -> (applied: bool)
        ensures
            applied == can_apply_session(*old(self), *session),
            applied ==> session_applied(*old(self), *final(self), *session),
            !applied ==> *final(self) == *old(self),
    {
        if self.can_apply(session) {
            self.update_with_session(session);
            true
        } else {
            false
        }
    }
}

/// `states` runs from the profile `f` through the sessions `s`, applied in
/// order, each within the integer types of the profile.
pub open spec fn is_session_run(f: UserFeatureVector, states: Seq<UserFeatureVector>, s: Seq<SessionEventInfo>) -> bool {
    &&& states.len() == s.len() + 1
    &&& states[0] == f
    &&& forall|i: int| 0 <= i < s.len() ==> #[trigger] can_apply_session(states[i], s[i])
    &&& forall|i: int| 0 <= i < s.len() ==> #[trigger] session_applied(states[i], states[i + 1], s[i])
}

/// `g` is the profile `f` after the sessions `s`, applied in order.
pub open spec fn sessions_applied(f: UserFeatureVector, g: UserFeatureVector, s: Seq<SessionEventInfo>) -> bool {
    exists|states: Seq<UserFeatureVector>| #[trigger] is_session_run(f, states, s) && states.last() == g
}

proof fn lemma_run_counts(f: UserFeatureVector, states: Seq<UserFeatureVector>, s: Seq<SessionEventInfo>, i: int)
    requires
        is_session_run(f, states, s),
        0 <= i <= s.len(),
    ensures
        states[i].total_sessions == f.total_sessions + i,
        states[i].total_events == f.total_events + i,
        states[i].user_id@ == f.user_id@,
    decreases i,
{
    if i > 0 {
        lemma_run_counts(f, states, s, i - 1);
        assert(session_applied(states[i - 1], states[i - 1 + 1], s[i - 1]));
    }
}

/// Applying sessions to a profile counts each of them once: the session and
/// event totals grow by the number of sessions, and the profile stays the
/// same user's.
pub proof fn lemma_every_session_counted(f: UserFeatureVector, g: UserFeatureVector, s: Seq<SessionEventInfo>)
    requires
        sessions_applied(f, g, s),
    ensures
        g.total_sessions == f.total_sessions + s.len(),
        g.total_events == f.total_events + s.len(),
        g.user_id@ == f.user_id@,
{
    let states = choose|states: Seq<UserFeatureVector>| #[trigger] is_session_run(f, states, s) && states.last() == g;
    lemma_run_counts(f, states, s, s.len() as int);
}

/// Updating a profile with a session keeps its hour histogram a 24-hour
/// histogram (bucket `i` labelled with hour `i`): the session is counted in
/// the bucket of its UTC hour, every other bucket is unchanged, and the
/// preferred hour and night-owl flag are read from the new histogram. A
/// session whose time the calendar cannot represent leaves the histogram as
/// it was.
pub proof fn lemma_update_keeps_hour_layout(f: UserFeatureVector, g: UserFeatureVector, s: SessionEventInfo)
    requires
        is_hour_histogram(f.hours_hist@),
        can_apply_session(f, s),
        session_applied(f, g, s),
    ensures
        is_hour_histogram(g.hours_hist@),
        utc_millis_representable(s.event_time) ==> {
            let hour = hour_of_millis(s.event_time as int);
            &&& 0 <= hour < 24
            &&& g.hours_hist@[hour].1 == f.hours_hist@[hour].1 + 1
            &&& forall|i: int| 0 <= i < 24 && i != hour ==> #[trigger] g.hours_hist@[i] == f.hours_hist@[i]
        },
        !utc_millis_representable(s.event_time) ==> g.hours_hist@ == f.hours_hist@,
        g.preferred_hour == peak_hour(g.hours_hist@),
        g.is_night_owl == night_owl(g.hours_hist@),
{
    lemma_event_counted_once(f.hours_hist@, s.event_time);
}

proof fn lemma_run_keeps_hour_layout(f: UserFeatureVector, states: Seq<UserFeatureVector>, s: Seq<SessionEventInfo>, i: int)
    requires
        is_hour_histogram(f.hours_hist@),
        is_session_run(f, states, s),
        0 <= i <= s.len(),
    ensures
        is_hour_histogram(states[i].hours_hist@),
    decreases i,
{
    if i > 0 {
        lemma_run_keeps_hour_layout(f, states, s, i - 1);
        assert(can_apply_session(states[i - 1], s[i - 1]));
        assert(session_applied(states[i - 1], states[i - 1 + 1], s[i - 1]));
        lemma_update_keeps_hour_layout(states[i - 1], states[i], s[i - 1]);
    }
}

/// Every profile reached by applying sessions in order to a profile with a
/// 24-hour histogram has a 24-hour histogram.
pub proof fn lemma_sessions_keep_hour_layout(f: UserFeatureVector, g: UserFeatureVector, s: Seq<SessionEventInfo>)
    requires
        is_hour_histogram(f.hours_hist@),
        sessions_applied(f, g, s),
    ensures
        is_hour_histogram(g.hours_hist@),
{
    let states = choose|states: Seq<UserFeatureVector>| #[trigger] is_session_run(f, states, s) && states.last() == g;
    lemma_run_keeps_hour_layout(f, states, s, s.len() as int);
}

/// Updating a profile with a session counts one more session and event, and
/// one more of the counter that matches its event type: page views for a
/// page view, clicks for a web click or a count event, exposures for an
/// exposure, page leaves for a page leave; the other counters stay, and an
/// unknown event moves none of them.
pub proof fn lemma_update_counts_by_type(f: UserFeatureVector, g: UserFeatureVector, s: SessionEventInfo)
    requires
        session_applied(f, g, s),
    ensures
        g.total_sessions == f.total_sessions + 1,
        g.total_events == f.total_events + 1,
        g.total_pageviews == f.total_pageviews + (if s.event_type == DataPointEventType::Pageview { 1int } else { 0int }),
        g.total_clicks == f.total_clicks + (if s.event_type == DataPointEventType::WebClick { 1int } else { 0int })
            + (if s.event_type == DataPointEventType::CountEvent { 1int } else { 0int }),
        g.total_exposures == f.total_exposures + (if s.event_type == DataPointEventType::Exposure { 1int } else { 0int }),
        g.total_web_page_leaves == f.total_web_page_leaves + (if s.event_type == DataPointEventType::WebPageLeave { 1int } else { 0int }),
        s.event_type == DataPointEventType::Unknown ==> g.total_pageviews == f.total_pageviews
            && g.total_clicks == f.total_clicks && g.total_exposures == f.total_exposures
            && g.total_web_page_leaves == f.total_web_page_leaves,
        g.user_id@ == f.user_id@,
{
}

/// The seconds of page time the sessions carry: the sum of their event
/// durations, a session without one counting 0.
pub open spec fn duration_total(s: Seq<SessionEventInfo>) -> int
    decreases s.len(),
{
    if s.len() == 0 {
        0
    } else {
        duration_total(s.drop_last()) + match s.last().event_duration {
            Some(d) => d as int,
            None => 0int,
        }
    }
}

/// Updating a profile with a session adds the session's duration, when it
/// has one, to the total page time, whatever the session's event type; two
/// sessions with the same duration add the same amount.
pub proof fn lemma_update_adds_duration(f: UserFeatureVector, g: UserFeatureVector, s: SessionEventInfo)
    requires
        session_applied(f, g, s),
    ensures
        g.total_pageview_duration_secs == f.total_pageview_duration_secs + duration_total(seq![s]),
        s.event_duration matches Some(d) ==> g.total_pageview_duration_secs == f.total_pageview_duration_secs + d,
        s.event_duration is None ==> g.total_pageview_duration_secs == f.total_pageview_duration_secs,
{
    let one = seq![s];
    assert(one.drop_last() =~= Seq::<SessionEventInfo>::empty());
    assert(one.last() == s);
    assert(duration_total(one.drop_last()) == 0);
}

proof fn lemma_run_durations(f: UserFeatureVector, states: Seq<UserFeatureVector>, s: Seq<SessionEventInfo>, i: int)
    requires
        is_session_run(f, states, s),
        0 <= i <= s.len(),
    ensures
        states[i].total_pageview_duration_secs == f.total_pageview_duration_secs + duration_total(s.take(i)),
    decreases i,
{
    if i > 0 {
        lemma_run_durations(f, states, s, i - 1);
        assert(session_applied(states[i - 1], states[i - 1 + 1], s[i - 1]));
        lemma_update_adds_duration(states[i - 1], states[i], s[i - 1]);
        assert(s.take(i).drop_last() =~= s.take(i - 1));
        assert(s.take(i).last() == s[i - 1]);
    } else {
        assert(s.take(0) =~= Seq::<SessionEventInfo>::empty());
    }
}

/// Applying sessions to a profile adds up all their durations in the total
/// page time, whatever their event types.
pub proof fn lemma_sessions_add_durations(f: UserFeatureVector, g: UserFeatureVector, s: Seq<SessionEventInfo>)
    requires
        sessions_applied(f, g, s),
    ensures
        g.total_pageview_duration_secs == f.total_pageview_duration_secs + duration_total(s),
{
    let states = choose|states: Seq<UserFeatureVector>| #[trigger] is_session_run(f, states, s) && states.last() == g;
    lemma_run_durations(f, states, s, s.len() as int);
    assert(s.take(s.len() as int) =~= s);
}

/// Applies the sessions to the profile in order. `None` when one of them
/// would take a counter of the profile out of its integer type; the
/// sessions before it were applicable and it was not.
pub fn apply_sessions(profile: UserFeatureVector, sessions: &Vec<SessionEventInfo>) -> (r: Option<UserFeatureVector>)
    ensures
        r matches Some(g) ==> sessions_applied(profile, g, sessions@),
        r is None ==> exists|k: int, mid: UserFeatureVector|
            0 <= k < sessions@.len() && #[trigger] sessions_applied(profile, mid, sessions@.take(k))
                && !can_apply_session(mid, sessions@[k]),
{
    let mut f = profile;
    let mut i: usize = 0;
    let ghost mut states: Seq<UserFeatureVector> = seq![profile];
    assert(is_session_run(profile, states, sessions@.take(0)));
    while i < sessions.len()
        invariant
            i <= sessions@.len(),
            is_session_run(profile, states, sessions@.take(i as int)),
            states.last() == f,
        decreases sessions@.len() - i,
    {
        let ghost before = f;
        if !f.try_update_with_session(&sessions[i]) {
            assert(sessions_applied(profile, before, sessions@.take(i as int)));
            return None;
        }
        proof {
            let old_states = states;
            states = states.push(f);
            let t = sessions@.take(i + 1);
            assert forall|j: int| 0 <= j < t.len() implies #[trigger] can_apply_session(states[j], t[j]) by {
                if j < i {
                    assert(states[j] == old_states[j]);
                    assert(t[j] == sessions@.take(i as int)[j]);
                }
            }
            assert forall|j: int| 0 <= j < t.len() implies #[trigger] session_applied(states[j], states[j + 1], t[j]) by {
                if j < i {
                    assert(states[j] == old_states[j]);
                    assert(states[j + 1] == old_states[j + 1]);
                    assert(t[j] == sessions@.take(i as int)[j]);
                }
            }
        }
        i = i + 1;
    }
    assert(sessions@.take(sessions@.len() as int) =~= sessions@);
    Some(f)
}

/// What is remembered of a user's latest event between batches.
#[derive(Clone, Debug)]
pub struct RedisStorageEventInfo {
    pub session_id: String,
    pub person_id: String,
    pub last_activity_time: i64,
    pub event_type: DataPointEventType,
    pub project: String,
}

/// A session event as stored for analysis: the event type by name, the
/// duration as a signed number.
#[derive(Clone, Debug)]
pub struct SessionEventRecord {
    pub session_id: String,
    pub project_code: String,
    pub project_id: String,
    pub project_name: String,
    pub event_type: String,
    pub event_time: i64,
    pub screen_width: Option<i32>,
    pub screen_height: Option<i32>,
    pub viewport_width: Option<i32>,
    pub viewport_height: Option<i32>,
    pub person_code: String,
    pub event_id: String,
    pub event_platform: String,
    pub event_chrome_version: String,
    pub event_safari_version: String,
    pub event_cttq_lark: String,
    pub event_refferer: String,
    pub event_url: String,
    pub event_url_path: String,
    pub event_page_title: String,
    pub event_referrer_host: String,
    pub event_duration: Option<i64>,
    pub usr_device: String,
}

/// `r` stores the event `e`.
pub open spec fn record_of(r: SessionEventRecord, e: SessionEventInfo) -> bool {
    &&& r.session_id == e.session_id
    &&& r.project_code == e.project_code
    &&& r.project_id == e.project_id
    &&& r.project_name == e.project_name
    &&& r.event_type@ == event_type_name(e.event_type)
    &&& r.event_time == e.event_time
    &&& r.screen_width == e.screen_width
    &&& r.screen_height == e.screen_height
    &&& r.viewport_width == e.viewport_width
    &&& r.viewport_height == e.viewport_height
    &&& r.person_code == e.person_code
    &&& r.event_id == e.event_id
    &&& r.event_platform == e.event_platform
    &&& r.event_chrome_version == e.event_chrome_version
    &&& r.event_safari_version == e.event_safari_version
    &&& r.event_cttq_lark == e.event_cttq_lark
    &&& r.event_refferer == e.event_refferer
    &&& r.event_url == e.event_url
    &&& r.event_url_path == e.event_url_path
    &&& r.event_page_title == e.event_page_title
    &&& r.event_referrer_host == e.event_referrer_host
    &&& r.event_duration == match e.event_duration {
        Some(d) => Some(d as i64),
        None => None,
    }
    &&& r.usr_device == e.usr_device
}

impl SessionEventRecord {
    /// The stored form of a session event; a duration beyond the signed range
    /// wraps as a two's-complement cast does.
    pub fn from(src: SessionEventInfo) -> (r: Self)
        ensures
            record_of(r, src),
    {
        let event_type = String::from_str(src.event_type.as_str());
        SessionEventRecord {
            session_id: src.session_id,
            project_code: src.project_code,
            project_id: src.project_id,
            project_name: src.project_name,
            event_type,
            event_time: src.event_time,
            screen_width: src.screen_width,
            screen_height: src.screen_height,
            viewport_width: src.viewport_width,
            viewport_height: src.viewport_height,
            person_code: src.person_code,
            event_id: src.event_id,
            event_platform: src.event_platform,
            event_chrome_version: src.event_chrome_version,
            event_safari_version: src.event_safari_version,
            event_cttq_lark: src.event_cttq_lark,
            event_refferer: src.event_refferer,
            event_url: src.event_url,
            event_url_path: src.event_url_path,
            event_page_title: src.event_page_title,
            event_referrer_host: src.event_referrer_host,
            event_duration: match src.event_duration {
                Some(d) => Some(d as i64),
                None => None,
            },
            usr_device: src.usr_device,
        }
    }
}

/// Per-session summary kept for later aggregation.
#[derive(Clone, Debug)]
pub struct SessionFeatureInfo {
    pub session_id: String,
    pub person_id: String,
    pub project_code: String,
    pub start_time: i64,
    pub end_time: i64,
    pub duration_secs: u64,
    pub total_events: u64,
    pub pageview_count: u64,
    pub click_count: u64,
    pub exposure_count: u64,
    pub web_page_leave_count: u64,
    pub count_event_count: u64,
    pub usr_device: String,
}

/// Basic per-event features.
#[derive(Clone, Debug)]
pub struct BasicFeatureVector {
    pub event_type: DataPointEventType,
    pub timestamp_secs: i64,
    pub page_category: String,
    pub device_type: String,
    pub event_duration: Option<u64>,
    pub device_version: String,
}

} // verus!
