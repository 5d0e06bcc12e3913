//! Splitting the event stream into sessions: which events are usable, when
//! a user's next event starts a new session, and what is recorded for it.
use vstd::prelude::*;
use vstd::string::*;
use crate::external::{is_v4_uuid_text, random_uuid_text};
use crate::model::{DataPointEventType, event_type_of_name, InnerEvent, Properties, RedisStorageEventInfo, SessionEventInfo};

verus! {

/// Outcome of checking an event's required fields: whether all are present,
/// then the person id, event name, project and event time found.
pub type SessionCheckResult = (bool, Option<String>, Option<String>, Option<String>, Option<i64>);

/// The tracking properties of an event, if it has any.
pub open spec fn properties_of(e: InnerEvent) -> Option<Properties> {
    match e.data {
        Some(d) => d.properties,
        None => None,
    }
}

/// The person id of an event, when present and not empty.
pub open spec fn person_of(e: InnerEvent) -> Option<Seq<char>> {
    match properties_of(e) {
        Some(p) => match p.person_id {
            Some(id) => if id@.len() > 0 { Some(id@) } else { None },
            None => None,
        },
        None => None,
    }
}

pub open spec fn event_name_of(e: InnerEvent) -> Option<Seq<char>> {
    match e.data {
        Some(d) => match d.event {
            Some(n) => Some(n@),
            None => None,
        },
        None => None,
    }
}

pub open spec fn project_of(e: InnerEvent) -> Option<Seq<char>> {
    match e.project {
        Some(p) => Some(p@),
        None => None,
    }
}

pub open spec fn time_of(e: InnerEvent) -> Option<i64> {
    match e.data {
        Some(d) => d.time,
        None => None,
    }
}

pub open spec fn text_of(o: Option<String>) -> Option<Seq<char>> {
    match o {
        Some(t) => Some(t@),
        None => None,
    }
}

/// `r` is the outcome of checking the required fields of `e`: a person id,
/// an event name, a project and an event time.
pub open spec fn required_fields_of(r: SessionCheckResult, e: InnerEvent) -> bool {
    &&& r.0 == (person_of(e) is Some && event_name_of(e) is Some && project_of(e) is Some && time_of(e) is Some)
    &&& text_of(r.1) == person_of(e)
    &&& text_of(r.2) == event_name_of(e)
    &&& text_of(r.3) == project_of(e)
    &&& r.4 == time_of(e)
}

pub fn check_session_required_fields(event_message: &InnerEvent) -> (r: SessionCheckResult)
    ensures
        required_fields_of(r, *event_message),
{
    let mut result: SessionCheckResult = (true, None, None, None, None);
    let person_ok = match &event_message.data {
        Some(d) => match &d.properties {
            Some(p) => match &p.person_id {
                Some(id) => {
                    if id.as_str().unicode_len() > 0 {
                        result.1 = Some(id.clone());
                        true
                    } else {
                        false
                    }
                },
                None => false,
            },
            None => false,
        },
        None => false,
    };
    if !person_ok {
        result.0 = false;
    }
    let event_ok = match &event_message.data {
        Some(d) => match &d.event {
            Some(e) => {
                result.2 = Some(e.clone());
                true
            },
            None => false,
        },
        None => false,
    };
    if !event_ok {
        result.0 = false;
    }
    let project_ok = match &event_message.project {
        Some(p) => {
            result.3 = Some(p.clone());
            true
        },
        None => false,
    };
    if !project_ok {
        result.0 = false;
    }
    let time_ok = match &event_message.data {
        Some(d) => match d.time {
            Some(t) => {
                result.4 = Some(t);
                true
            },
            None => false,
        },
        None => false,
    };
    if !time_ok {
        result.0 = false;
    }
    result
}

/// The key under which a user's latest event is remembered.
pub open spec fn session_key_text(person: Option<Seq<char>>) -> Seq<char> {
    "session:"@ + match person {
        Some(p) => p,
        None => Seq::empty(),
    } + ":last_active"@
}

pub fn redis_session_key(person_id: &Option<String>) -> (r: String)
    ensures
        r@ == session_key_text(text_of(*person_id)),
{
    let mut key = String::from_str("session:");
    match person_id {
        Some(p) => key.append(p.as_str()),
        None => {},
    }
    key.append(":last_active");
    key
}

/// The event time used for session decisions (0 when missing).
pub open spec fn time_or_zero(t: Option<i64>) -> i64 {
    match t {
        Some(x) => x,
        None => 0,
    }
}

/// Whether the user's event at `time` starts a new session: there is no
/// remembered event, or more than the timeout has passed since it. Event
/// times are in milliseconds and the timeout is in seconds.
pub open spec fn starts_new_session(stored: Option<RedisStorageEventInfo>, time: Option<i64>, timeout_secs: u64) -> bool {
    match stored {
        None => true,
        Some(s) => time_or_zero(time) - s.last_activity_time > timeout_secs * 1000,
    }
}

/// A remembered session continues while the event comes at most the
/// timeout after the remembered event (the timeout in seconds, event times
/// in milliseconds: `timeout_secs * 1000` ms) and ends one millisecond
/// later; with no remembered event a session always starts.
pub proof fn lemma_session_timeout(s: RedisStorageEventInfo, t: i64, timeout_secs: u64)
    ensures
        starts_new_session(None, Some(t), timeout_secs),
        t <= s.last_activity_time + timeout_secs * 1000 ==> !starts_new_session(Some(s), Some(t), timeout_secs),
        t >= s.last_activity_time + timeout_secs * 1000 + 1 ==> starts_new_session(Some(s), Some(t), timeout_secs),
        t <= s.last_activity_time ==> !starts_new_session(Some(s), Some(t), timeout_secs),
{
}

/// The gap from the remembered event to this one can be computed.
pub open spec fn gap_fits(stored: Option<RedisStorageEventInfo>, time: Option<i64>) -> bool {
    match stored {
        None => true,
        Some(s) => i64::MIN <= time_or_zero(time) - s.last_activity_time <= i64::MAX,
    }
}

/// The session id for the user's event: the remembered session continues
/// within the timeout; otherwise a fresh random id is drawn.
pub fn next_session_id(stored: &Option<RedisStorageEventInfo>, time: Option<i64>, timeout_secs: u64) -> (r: String)
    requires
        gap_fits(*stored, time),
    ensures
        !starts_new_session(*stored, time, timeout_secs) ==> r@ == stored->0.session_id@,
        starts_new_session(*stored, time, timeout_secs) ==> is_v4_uuid_text(r@),
{
    match stored {
        None => random_uuid_text(),
        Some(s) => {
            let current_event_time = match time {
                Some(t) => t,
                None => 0,
            };
            let gap_ms: i64 = current_event_time - s.last_activity_time;
            let timeout_ms: i128 = timeout_secs as i128 * 1000;
            if gap_ms as i128 > timeout_ms {
                random_uuid_text()
            } else {
                s.session_id.clone()
            }
        },
    }
}

/// The text of an optional property, or the empty text.
pub open spec fn prop_text(p: Option<Properties>, f: spec_fn(Properties) -> Option<String>) -> Seq<char> {
    match p {
        Some(props) => match f(props) {
            Some(t) => t@,
            None => Seq::empty(),
        },
        None => Seq::empty(),
    }
}

/// A text or the empty text.
pub open spec fn text_or_empty(o: Option<Seq<char>>) -> Seq<char> {
    match o {
        Some(t) => t,
        None => Seq::empty(),
    }
}

/// `s` is the session event recorded for `e`, checked as `c`, in session
/// `session_id`.
pub open spec fn session_event_of(s: SessionEventInfo, e: InnerEvent, c: SessionCheckResult, session_id: Seq<char>) -> bool {
    let p = properties_of(e);
    &&& s.session_id@ == session_id
    &&& s.project_code@ == text_or_empty(text_of(c.3))
    &&& s.project_id@ == prop_text(p, |q: Properties| q.project_id)
    &&& s.project_name@ == prop_text(p, |q: Properties| q.project_name)
    &&& s.event_type == event_type_of_name(text_or_empty(text_of(c.2)))
    &&& s.event_time == time_or_zero(c.4)
    &&& s.screen_width == match p { Some(q) => q.screen_width, None => None }
    &&& s.screen_height == match p { Some(q) => q.screen_height, None => None }
    &&& s.viewport_width == match p { Some(q) => q.viewport_width, None => None }
    &&& s.viewport_height == match p { Some(q) => q.viewport_height, None => None }
    &&& s.person_code@ == text_or_empty(text_of(c.1))
    &&& s.event_id@ == prop_text(p, |q: Properties| q.evt_id)
    &&& s.event_platform@ == prop_text(p, |q: Properties| q.platform)
    &&& s.event_chrome_version@ == prop_text(p, |q: Properties| q.chrome_version)
    &&& s.event_safari_version@ == prop_text(p, |q: Properties| q.safari_version)
    &&& s.event_cttq_lark@ == prop_text(p, |q: Properties| q.lark)
    &&& s.event_refferer@ == prop_text(p, |q: Properties| q.referrer)
    &&& s.event_url@ == prop_text(p, |q: Properties| q.url)
    &&& s.event_url_path@ == prop_text(p, |q: Properties| q.url_path)
    &&& s.event_page_title@ == prop_text(p, |q: Properties| q.title)
    &&& s.event_referrer_host@ == prop_text(p, |q: Properties| q.referrer_host)
    &&& s.event_duration == match p { Some(q) => q.event_duration, None => None }
    &&& s.usr_device@ == prop_text(p, |q: Properties| q.usr_device)
}

fn text_or_new(o: &Option<String>) -> (r: String)
    ensures
        r@ == text_or_empty(text_of(*o)),
{
    match o {
        Some(t) => t.clone(),
        None => String::new(),
    }
}

/// The session event recorded for a checked event.
pub fn build_session_event(message: &InnerEvent, basic_info: &SessionCheckResult, session_id: String) -> (s: SessionEventInfo)
    ensures
        session_event_of(s, *message, *basic_info, session_id@),
{
    let props: Option<&Properties> = match &message.data {
        Some(d) => match &d.properties {
            Some(p) => Some(p),
            None => None,
        },
        None => None,
    };
    let event_name = text_or_new(&basic_info.2);
    match props {
        Some(p) => SessionEventInfo {
            session_id,
            project_code: text_or_new(&basic_info.3),
            project_id: text_or_new(&p.project_id),
            project_name: text_or_new(&p.project_name),
            event_type: DataPointEventType::from_str(event_name.as_str()),
            event_time: match basic_info.4 {
                Some(t) => t,
                None => 0,
            },
            screen_width: p.screen_width,
            screen_height: p.screen_height,
            viewport_width: p.viewport_width,
            viewport_height: p.viewport_height,
            person_code: text_or_new(&basic_info.1),
            event_id: text_or_new(&p.evt_id),
            event_platform: text_or_new(&p.platform),
            event_chrome_version: text_or_new(&p.chrome_version),
            event_safari_version: text_or_new(&p.safari_version),
            event_cttq_lark: text_or_new(&p.lark),
            event_refferer: text_or_new(&p.referrer),
            event_url: text_or_new(&p.url),
            event_url_path: text_or_new(&p.url_path),
            event_page_title: text_or_new(&p.title),
            event_referrer_host: text_or_new(&p.referrer_host),
            event_duration: p.event_duration,
            usr_device: text_or_new(&p.usr_device),
        },
        None => SessionEventInfo {
            session_id,
            project_code: text_or_new(&basic_info.3),
            project_id: String::new(),
            project_name: String::new(),
            event_type: DataPointEventType::from_str(event_name.as_str()),
            event_time: match basic_info.4 {
                Some(t) => t,
                None => 0,
            },
            screen_width: None,
            screen_height: None,
            viewport_width: None,
            viewport_height: None,
            person_code: text_or_new(&basic_info.1),
            event_id: String::new(),
            event_platform: String::new(),
            event_chrome_version: String::new(),
            event_safari_version: String::new(),
            event_cttq_lark: String::new(),
            event_refferer: String::new(),
            event_url: String::new(),
            event_url_path: String::new(),
            event_page_title: String::new(),
            event_referrer_host: String::new(),
            event_duration: None,
            usr_device: String::new(),
        },
    }
}

/// What is remembered of the user's latest event.
pub fn build_storage_info(basic_info: &SessionCheckResult, session_id: String) -> (r: RedisStorageEventInfo)
    ensures
        r.session_id@ == session_id@,
        r.person_id@ == text_or_empty(text_of(basic_info.1)),
        r.last_activity_time == time_or_zero(basic_info.4),
        r.event_type == event_type_of_name(text_or_empty(text_of(basic_info.2))),
        r.project@ == text_or_empty(text_of(basic_info.3)),
{
    let event_name = text_or_new(&basic_info.2);
    RedisStorageEventInfo {
        session_id,
        person_id: text_or_new(&basic_info.1),
        last_activity_time: match basic_info.4 {
            Some(t) => t,
            None => 0,
        },
        event_type: DataPointEventType::from_str(event_name.as_str()),
        project: text_or_new(&basic_info.3),
    }
}

/// Whether the buffered payloads are due for processing: the batch is full
/// or the batch interval has passed.
pub fn batch_ready(pending: usize, batch_max_size: u64, elapsed_secs: u64, batch_interval_secs: u64) -> (r: bool)
    ensures
        r == (pending >= batch_max_size || elapsed_secs >= batch_interval_secs),
{
    pending as u64 >= batch_max_size || elapsed_secs >= batch_interval_secs
}

/// Whether the gap from the remembered event to this one can be computed.
pub fn session_gap_fits(stored: &Option<RedisStorageEventInfo>, time: Option<i64>) -> (r: bool)
    ensures
        r == gap_fits(*stored, time),
{
    match stored {
        None => true,
        Some(s) => {
            let t = match time {
                Some(t) => t,
                None => 0,
            };
            t.checked_sub(s.last_activity_time).is_some()
        },
    }
}

/// Where a checked event goes: the session event to aggregate and buffer,
/// and what to remember of the user's latest event.
#[derive(Clone, Debug)]
pub struct SessionPlacement {
    pub event: SessionEventInfo,
    pub remembered: RedisStorageEventInfo,
}

/// `p` places the event `e`, checked as `c`, after the remembered event
/// `stored`: it continues the remembered session within the timeout, and
/// both parts carry the same session id.
pub open spec fn placement_of(
    p: SessionPlacement,
    e: InnerEvent,
    c: SessionCheckResult,
    stored: Option<RedisStorageEventInfo>,
    timeout_secs: u64,
) -> bool {
    &&& session_event_of(p.event, e, c, p.event.session_id@)
    &&& p.remembered.session_id@ == p.event.session_id@
    &&& p.remembered.person_id@ == text_or_empty(text_of(c.1))
    &&& p.remembered.last_activity_time == time_or_zero(c.4)
    &&& p.remembered.event_type == event_type_of_name(text_or_empty(text_of(c.2)))
    &&& p.remembered.project@ == text_or_empty(text_of(c.3))
    &&& (!starts_new_session(stored, c.4, timeout_secs) ==> p.event.session_id@ == stored->0.session_id@)
    &&& (starts_new_session(stored, c.4, timeout_secs) ==> is_v4_uuid_text(p.event.session_id@))
}

/// The properties an event carries, if any.
pub open spec fn event_props(e: InnerEvent) -> Option<Properties> {
    match e.data {
        Some(d) => d.properties,
        None => None,
    }
}

/// The text of an optional text, or the empty text.
pub open spec fn or_empty(o: Option<String>) -> Seq<char> {
    match o {
        Some(t) => t@,
        None => Seq::empty(),
    }
}

/// An event passes the required-field check exactly when all four fields
/// are found: a non-empty person id, an event name, a project and an event
/// time. Each field found is the event's own; an event without a project,
/// an event name or a time is rejected.
pub proof fn lemma_required_fields(r: SessionCheckResult, e: InnerEvent)
    requires
        required_fields_of(r, e),
    ensures
        r.0 <==> (r.1 is Some && r.2 is Some && r.3 is Some && r.4 is Some),
        e.project is None ==> !r.0,
        e.data is None ==> !r.0,
        (e.data matches Some(d) && (d.event is None || d.time is None || d.properties is None)) ==> !r.0,
        r.3 is Some <==> e.project is Some,
        r.3 matches Some(p) ==> p@ == e.project->0@,
        r.4 == match e.data { Some(d) => d.time, None => None },
        r.2 matches Some(n) ==> (e.data matches Some(d) && d.event matches Some(x) && n@ == x@),
        r.1 matches Some(p) ==> p@.len() > 0 && (event_props(e) matches Some(q) && q.person_id matches Some(x) && x@ == p@),
        (event_props(e) matches Some(q) && q.person_id matches Some(x) && x@.len() > 0) ==> r.1 is Some,
{
}

/// The session event recorded for a checked event copies the event's own
/// properties field by field (each text property under its own name, the
/// referrer as the referrer and the referrer host as the host; an absent
/// one as the empty text), and takes its project, person and time from the
/// event (empty or 0 when absent), in the session it was placed in.
pub proof fn lemma_session_event_fields(s: SessionEventInfo, e: InnerEvent, c: SessionCheckResult, session_id: Seq<char>)
    requires
        session_event_of(s, e, c, session_id),
        required_fields_of(c, e),
    ensures
        s.session_id@ == session_id,
        s.project_code@ == or_empty(e.project),
        s.event_time == match e.data { Some(d) => match d.time { Some(t) => t, None => 0 }, None => 0 },
        s.person_code@ == match event_props(e) {
            Some(q) => match q.person_id { Some(x) => if x@.len() > 0 { x@ } else { Seq::empty() }, None => Seq::empty() },
            None => Seq::empty(),
        },
        s.project_id@ == or_empty(match event_props(e) { Some(q) => q.project_id, None => None }),
        s.project_name@ == or_empty(match event_props(e) { Some(q) => q.project_name, None => None }),
        s.event_id@ == or_empty(match event_props(e) { Some(q) => q.evt_id, None => None }),
        s.event_platform@ == or_empty(match event_props(e) { Some(q) => q.platform, None => None }),
        s.event_chrome_version@ == or_empty(match event_props(e) { Some(q) => q.chrome_version, None => None }),
        s.event_safari_version@ == or_empty(match event_props(e) { Some(q) => q.safari_version, None => None }),
        s.event_cttq_lark@ == or_empty(match event_props(e) { Some(q) => q.lark, None => None }),
        s.event_refferer@ == or_empty(match event_props(e) { Some(q) => q.referrer, None => None }),
        s.event_url@ == or_empty(match event_props(e) { Some(q) => q.url, None => None }),
        s.event_url_path@ == or_empty(match event_props(e) { Some(q) => q.url_path, None => None }),
        s.event_page_title@ == or_empty(match event_props(e) { Some(q) => q.title, None => None }),
        s.event_referrer_host@ == or_empty(match event_props(e) { Some(q) => q.referrer_host, None => None }),
        s.usr_device@ == or_empty(match event_props(e) { Some(q) => q.usr_device, None => None }),
        s.screen_width == match event_props(e) { Some(q) => q.screen_width, None => None },
        s.screen_height == match event_props(e) { Some(q) => q.screen_height, None => None },
        s.viewport_width == match event_props(e) { Some(q) => q.viewport_width, None => None },
        s.viewport_height == match event_props(e) { Some(q) => q.viewport_height, None => None },
        s.event_duration == match event_props(e) { Some(q) => q.event_duration, None => None },
{
}

/// Places a checked event in a session: the remembered session continues
/// within the timeout, otherwise a new one is opened with a fresh random id.
pub fn place_in_session(
    message: &InnerEvent,
    basic_info: &SessionCheckResult,
    stored: &Option<RedisStorageEventInfo>,
    timeout_secs: u64,
) -> (p: SessionPlacement)
    requires
        gap_fits(*stored, basic_info.4),
    ensures
        placement_of(p, *message, *basic_info, *stored, timeout_secs),
{
    let session_id = next_session_id(stored, basic_info.4, timeout_secs);
    let remembered = build_storage_info(basic_info, session_id.clone());
    let event = build_session_event(message, basic_info, session_id);
    SessionPlacement { event, remembered }
}

/// The events buffered per person, in order of the person's first event.
pub open spec fn batch_view(groups: Seq<(String, Vec<SessionEventInfo>)>) -> Seq<(Seq<char>, Seq<SessionEventInfo>)> {
    groups.map_values(|g: (String, Vec<SessionEventInfo>)| (g.0@, g.1@))
}

/// No two groups belong to the same person.
pub open spec fn persons_distinct(b: Seq<(Seq<char>, Seq<SessionEventInfo>)>) -> bool {
    forall|i: int, j: int| 0 <= i < j < b.len() ==> #[trigger] b[i].0 != #[trigger] b[j].0
}

/// The buffer after adding an event for `person`: appended to the person's
/// group, or a new group at the end when the person has none.
pub open spec fn batch_after_push(
    b: Seq<(Seq<char>, Seq<SessionEventInfo>)>,
    person: Seq<char>,
    e: SessionEventInfo,
) -> Seq<(Seq<char>, Seq<SessionEventInfo>)> {
    if exists|j: int| 0 <= j < b.len() && #[trigger] b[j].0 == person {
        let j = choose|j: int| 0 <= j < b.len() && #[trigger] b[j].0 == person;
        b.update(j, (person, b[j].1.push(e)))
    } else {
        b.push((person, seq![e]))
    }
}

/// The events buffered for a person.
pub open spec fn events_of(b: Seq<(Seq<char>, Seq<SessionEventInfo>)>, person: Seq<char>) -> Seq<SessionEventInfo> {
    if exists|j: int| 0 <= j < b.len() && #[trigger] b[j].0 == person {
        b[choose|j: int| 0 <= j < b.len() && #[trigger] b[j].0 == person].1
    } else {
        Seq::empty()
    }
}

/// Session events buffered per person until they are stored and their
/// features extracted.
pub struct SessionBatch {
    groups: Vec<(String, Vec<SessionEventInfo>)>,
}

impl SessionBatch {
    #[verifier::type_invariant]
    spec fn one_group_per_person(self) -> bool {
        persons_distinct(batch_view(self.groups@))
    }

    /// The groups, in order of each person's first event.
    pub closed spec fn view(self) -> Seq<(Seq<char>, Seq<SessionEventInfo>)> {
        batch_view(self.groups@)
    }

    pub fn new() -> (b: Self)
        ensures
            b.view().len() == 0,
    {
        SessionBatch { groups: Vec::new() }
    }

    /// Adds an event to the person's group.
    pub fn push(&mut self, person: String, event: SessionEventInfo)
        ensures
            final(self).view() == batch_after_push(old(self).view(), person@, event),
            persons_distinct(final(self).view()),
    {
        proof {
            use_type_invariant(&*self);
        }
        let ghost b = self.view();
        let mut groups: Vec<(String, Vec<SessionEventInfo>)> = Vec::new();
        std::mem::swap(&mut groups, &mut self.groups);
        let mut i: usize = 0;
        while i < groups.len()
            invariant
                i <= groups@.len(),
                b == batch_view(groups@),
                b == old(self).view(),
                persons_distinct(b),
                forall|k: int| 0 <= k < i ==> #[trigger] groups@[k].0@ != person@,
            decreases groups@.len() - i,
        {
            if crate::text::str_eq(groups[i].0.as_str(), person.as_str()) {
                let ghost before = groups@;
                let mut g: (String, Vec<SessionEventInfo>) = (String::new(), Vec::new());
                std::mem::swap(&mut g, &mut groups[i]);
                let (name, mut events) = g;
                events.push(event);
                groups.set(i, (name, events));
                proof {
                    assert(b[i as int].0 == person@);
                    let j = choose|j: int| 0 <= j < b.len() && #[trigger] b[j].0 == person@;
                    assert(j == i) by {
                        if j != i {
                            assert(b[j].0 == b[i as int].0);
                        }
                    }
                    assert(batch_view(groups@) =~= batch_after_push(b, person@, event)) by {
                        assert forall|k: int| 0 <= k < groups@.len() && k != i implies #[trigger] groups@[k] == before[k] by {}
                    }
                    let nb = batch_view(groups@);
                    assert forall|x: int, y: int| 0 <= x < y < nb.len() implies #[trigger] nb[x].0 != #[trigger] nb[y].0 by {
                        assert(b[x].0 != b[y].0);
                    }
                }
                self.groups = groups;
                return;
            }
            i = i + 1;
        }
        proof {
            assert forall|j: int| 0 <= j < b.len() implies #[trigger] b[j].0 != person@ by {
                assert(b[j].0 == groups@[j].0@);
            }
        }
        let mut events: Vec<SessionEventInfo> = Vec::new();
        events.push(event);
        groups.push((person, events));
        proof {
            let nb = batch_view(groups@);
            assert(nb =~= batch_after_push(b, person@, event));
            assert forall|x: int, y: int| 0 <= x < y < nb.len() implies #[trigger] nb[x].0 != #[trigger] nb[y].0 by {
                if y < b.len() {
                    assert(b[x].0 != b[y].0);
                } else {
                    assert(nb[x].0 == b[x].0);
                }
            }
        }
        self.groups = groups;
    }

    /// The groups, for storing them.
    pub fn groups(&self) -> (g: &Vec<(String, Vec<SessionEventInfo>)>)
        ensures
            batch_view(g@) == self.view(),
            persons_distinct(self.view()),
    {
        proof {
            use_type_invariant(self);
        }
        &self.groups
    }
}

/// Adding an event for a person appends it to that person's events and
/// leaves every other person's events as they were; a batch with one group
/// per person keeps one group per person.
pub proof fn lemma_push_appends_to_person(b: Seq<(Seq<char>, Seq<SessionEventInfo>)>, person: Seq<char>, e: SessionEventInfo)
    requires
        persons_distinct(b),
    ensures
        events_of(batch_after_push(b, person, e), person) == events_of(b, person).push(e),
        forall|other: Seq<char>| other != person ==> #[trigger] events_of(batch_after_push(b, person, e), other) == events_of(b, other),
        persons_distinct(batch_after_push(b, person, e)),
{
    let nb = batch_after_push(b, person, e);
    if exists|j: int| 0 <= j < b.len() && #[trigger] b[j].0 == person {
        let j = choose|j: int| 0 <= j < b.len() && #[trigger] b[j].0 == person;
        assert(nb[j].0 == person);
        let c = choose|c: int| 0 <= c < nb.len() && #[trigger] nb[c].0 == person;
        assert(c == j) by {
            if c != j {
                assert(b[c].0 == nb[c].0);
            }
        }
        assert forall|other: Seq<char>| other != person implies #[trigger] events_of(nb, other) == events_of(b, other) by {
            if exists|a: int| 0 <= a < b.len() && #[trigger] b[a].0 == other {
                let a = choose|a: int| 0 <= a < b.len() && #[trigger] b[a].0 == other;
                assert(nb[a].0 == other);
                let a2 = choose|a2: int| 0 <= a2 < nb.len() && #[trigger] nb[a2].0 == other;
                assert(a2 == a) by {
                    if a2 != a {
                        assert(b[a2].0 == nb[a2].0);
                    }
                }
            } else {
                assert forall|a: int| 0 <= a < nb.len() implies #[trigger] nb[a].0 != other by {
                    if a != j {
                        assert(nb[a] == b[a]);
                    }
                }
            }
        }
        assert forall|x: int, y: int| 0 <= x < y < nb.len() implies #[trigger] nb[x].0 != #[trigger] nb[y].0 by {
            assert(b[x].0 != b[y].0);
        }
    } else {
        let n = b.len() as int;
        assert(nb[n].0 == person);
        let c = choose|c: int| 0 <= c < nb.len() && #[trigger] nb[c].0 == person;
        assert(c == n) by {
            if c != n {
                assert(b[c].0 == nb[c].0);
            }
        }
        assert(events_of(b, person) =~= Seq::<SessionEventInfo>::empty());
        assert(seq![e] =~= Seq::<SessionEventInfo>::empty().push(e));
        assert forall|other: Seq<char>| other != person implies #[trigger] events_of(nb, other) == events_of(b, other) by {
            if exists|a: int| 0 <= a < b.len() && #[trigger] b[a].0 == other {
                let a = choose|a: int| 0 <= a < b.len() && #[trigger] b[a].0 == other;
                assert(nb[a].0 == other);
                let a2 = choose|a2: int| 0 <= a2 < nb.len() && #[trigger] nb[a2].0 == other;
                assert(a2 == a) by {
                    if a2 != a {
                        assert(b[a2].0 == nb[a2].0);
                    }
                }
            } else {
                assert forall|a: int| 0 <= a < nb.len() implies #[trigger] nb[a].0 != other by {
                    if a < n {
                        assert(nb[a] == b[a]);
                    }
                }
            }
        }
        assert forall|x: int, y: int| 0 <= x < y < nb.len() implies #[trigger] nb[x].0 != #[trigger] nb[y].0 by {
            if y < n {
                assert(b[x].0 != b[y].0);
            } else {
                assert(nb[x].0 == b[x].0);
            }
        }
    }
}

} // verus!
