//! Real-time aggregation over a sliding window of session events: the
//! window is the last five minutes of event time, and the metrics describe
//! the users, sessions, devices, browsers, entry/exit pages and page paths
//! seen in it.
use vstd::prelude::*;
use std::collections::VecDeque;
use vstd::string::*;
use crate::external::{lowercase_text, to_lowercase};
use crate::model::{DataPointEventType, SessionEventInfo};
use crate::tally::{count_for, count_total, distinct, occurrences, tally_add, tally_of, tally_view, lemma_count_for_tally, lemma_distinct_contains, lemma_tally_total};
use crate::text::{has_substring, joined, join_strings, str_contains, str_eq};

verus! {

/// Length of the aggregation window, in milliseconds of event time.
pub const WINDOW_SIZE_MS: i64 = 300000;

/// A text that carries information: neither empty nor the placeholder `-`.
pub open spec fn informative(s: Seq<char>) -> bool {
    s.len() > 0 && s != "-"@
}

// ---------------------------------------------------------------------------
// Ordering the events of a session by time.

/// Inserts index `x` into `sorted` after every index whose event is not later
/// than the event at `x`.
pub open spec fn insert_by_time(w: Seq<SessionEventInfo>, sorted: Seq<int>, x: int) -> Seq<int>
    decreases sorted.len(),
{
    if sorted.len() == 0 {
        seq![x]
    } else if w[sorted.last()].event_time <= w[x].event_time {
        sorted.push(x)
    } else {
        insert_by_time(w, sorted.drop_last(), x).push(sorted.last())
    }
}

/// The indices `s` in order of event time, events of equal time keeping
/// their order in `s` (a stable sort by time).
pub open spec fn sort_by_time(w: Seq<SessionEventInfo>, s: Seq<int>) -> Seq<int>
    decreases s.len(),
{
    if s.len() == 0 {
        s
    } else {
        insert_by_time(w, sort_by_time(w, s.drop_last()), s.last())
    }
}

/// `p` is where `x` goes in `sorted`: every later index holds a later event,
/// the one before does not.
pub open spec fn is_insert_pos(w: Seq<SessionEventInfo>, sorted: Seq<int>, t: i64, p: int) -> bool {
    &&& 0 <= p <= sorted.len()
    &&& forall|j: int| p <= j < sorted.len() ==> w[#[trigger] sorted[j]].event_time > t
    &&& p > 0 ==> w[sorted[p - 1]].event_time <= t
}

proof fn lemma_insert_at(w: Seq<SessionEventInfo>, sorted: Seq<int>, x: int, p: int)
    requires
        is_insert_pos(w, sorted, w[x].event_time, p),
    ensures
        insert_by_time(w, sorted, x) == sorted.take(p).push(x) + sorted.skip(p),
    decreases sorted.len(),
{
    if sorted.len() == 0 {
        assert(sorted.take(p).push(x) + sorted.skip(p) =~= seq![x]);
    } else if p == sorted.len() {
        assert(sorted.take(p).push(x) + sorted.skip(p) =~= sorted.push(x));
    } else {
        let d = sorted.drop_last();
        assert(w[sorted[sorted.len() - 1]].event_time > w[x].event_time);
        assert(is_insert_pos(w, d, w[x].event_time, p)) by {
            assert forall|j: int| p <= j < d.len() implies w[#[trigger] d[j]].event_time > w[x].event_time by {
                assert(d[j] == sorted[j]);
            }
            if p > 0 {
                assert(d[p - 1] == sorted[p - 1]);
            }
        }
        lemma_insert_at(w, d, x, p);
        assert(d.take(p).push(x) + d.skip(p) + seq![sorted.last()] =~= sorted.take(p).push(x) + sorted.skip(p));
    }
}

proof fn lemma_insert_len(w: Seq<SessionEventInfo>, sorted: Seq<int>, x: int)
    ensures
        insert_by_time(w, sorted, x).len() == sorted.len() + 1,
    decreases sorted.len(),
{
    if sorted.len() > 0 {
        lemma_insert_len(w, sorted.drop_last(), x);
    }
}

/// Sorting by time keeps the number of indices.
pub proof fn lemma_sort_len(w: Seq<SessionEventInfo>, s: Seq<int>)
    ensures
        sort_by_time(w, s).len() == s.len(),
    decreases s.len(),
{
    if s.len() > 0 {
        lemma_sort_len(w, s.drop_last());
        lemma_insert_len(w, sort_by_time(w, s.drop_last()), s.last());
    }
}

// ---------------------------------------------------------------------------
// What the metrics are, stated over the events of the window.

/// Indices below `n` of the events of session `k`, in window order.
pub open spec fn session_members(w: Seq<SessionEventInfo>, k: Seq<char>, n: int) -> Seq<int>
    decreases n,
{
    if n <= 0 {
        Seq::empty()
    } else {
        let m = session_members(w, k, n - 1);
        if w[n - 1].session_id@ == k {
            m.push(n - 1)
        } else {
            m
        }
    }
}

/// The events of session `k`, in order of event time.
pub open spec fn session_order(w: Seq<SessionEventInfo>, k: Seq<char>) -> Seq<int> {
    sort_by_time(w, session_members(w, k, w.len() as int))
}

/// Time from the first to the last event of session `k`.
pub open spec fn session_span(w: Seq<SessionEventInfo>, k: Seq<char>) -> int {
    let o = session_order(w, k);
    if o.len() == 0 {
        0
    } else {
        w[o.last()].event_time - w[o[0]].event_time
    }
}

/// Number of page views among the events at indices `o`.
pub open spec fn pageviews_among(w: Seq<SessionEventInfo>, o: Seq<int>) -> int
    decreases o.len(),
{
    if o.len() == 0 {
        0
    } else {
        pageviews_among(w, o.drop_last()) + if w[o.last()].event_type == DataPointEventType::Pageview {
            1int
        } else {
            0
        }
    }
}

/// The informative page paths of the page views at indices `o`, in order.
pub open spec fn page_trail(w: Seq<SessionEventInfo>, o: Seq<int>) -> Seq<Seq<char>>
    decreases o.len(),
{
    if o.len() == 0 {
        Seq::empty()
    } else {
        let t = page_trail(w, o.drop_last());
        let e = w[o.last()];
        if e.event_type == DataPointEventType::Pageview && informative(e.event_url_path@) {
            t.push(e.event_url_path@)
        } else {
            t
        }
    }
}

/// The page of an event, when its path is informative.
pub open spec fn page_of(e: SessionEventInfo) -> Option<Seq<char>> {
    if informative(e.event_url_path@) {
        Some(e.event_url_path@)
    } else {
        None
    }
}

/// The page a session entered on: that of its earliest event.
pub open spec fn entry_page(w: Seq<SessionEventInfo>, k: Seq<char>) -> Option<Seq<char>> {
    let o = session_order(w, k);
    if o.len() == 0 {
        None
    } else {
        page_of(w[o[0]])
    }
}

/// The page a session left from: that of its latest event.
pub open spec fn exit_page(w: Seq<SessionEventInfo>, k: Seq<char>) -> Option<Seq<char>> {
    let o = session_order(w, k);
    if o.len() == 0 {
        None
    } else {
        page_of(w[o.last()])
    }
}

/// The path a session took through the pages it viewed, written
/// `a -> b -> c`, when it viewed any.
pub open spec fn trail_key(w: Seq<SessionEventInfo>, k: Seq<char>) -> Option<Seq<char>> {
    let t = page_trail(w, session_order(w, k));
    if t.len() == 0 {
        None
    } else {
        Some(joined(t, " -> "@))
    }
}

/// The texts present in a list of optional texts, in order.
pub open spec fn present(s: Seq<Option<Seq<char>>>) -> Seq<Seq<char>>
    decreases s.len(),
{
    if s.len() == 0 {
        Seq::empty()
    } else {
        let p = present(s.drop_last());
        match s.last() {
            Some(t) => p.push(t),
            None => p,
        }
    }
}

/// Total time spanned by the sessions `ks`.
pub open spec fn span_total(w: Seq<SessionEventInfo>, ks: Seq<Seq<char>>) -> int
    decreases ks.len(),
{
    if ks.len() == 0 {
        0
    } else {
        span_total(w, ks.drop_last()) + session_span(w, ks.last())
    }
}

/// Total number of page views in the sessions `ks`.
pub open spec fn depth_total(w: Seq<SessionEventInfo>, ks: Seq<Seq<char>>) -> int
    decreases ks.len(),
{
    if ks.len() == 0 {
        0
    } else {
        depth_total(w, ks.drop_last()) + pageviews_among(w, session_order(w, ks.last()))
    }
}

/// Entry pages of the sessions `ks`.
pub open spec fn entry_pages(w: Seq<SessionEventInfo>, ks: Seq<Seq<char>>) -> Seq<Seq<char>> {
    present(ks.map_values(|k: Seq<char>| entry_page(w, k)))
}

/// Exit pages of the sessions `ks`.
pub open spec fn exit_pages(w: Seq<SessionEventInfo>, ks: Seq<Seq<char>>) -> Seq<Seq<char>> {
    present(ks.map_values(|k: Seq<char>| exit_page(w, k)))
}

/// Page paths of the sessions `ks`.
pub open spec fn trail_keys(w: Seq<SessionEventInfo>, ks: Seq<Seq<char>>) -> Seq<Seq<char>> {
    present(ks.map_values(|k: Seq<char>| trail_key(w, k)))
}

/// The browser an event is attributed to.
pub open spec fn browser_of(e: SessionEventInfo) -> Seq<char> {
    if informative(e.event_chrome_version@) {
        "Chrome"@
    } else if informative(e.event_safari_version@) {
        "Safari"@
    } else if has_substring(lowercase_text(e.event_platform@), "android"@) {
        "Android Webview"@
    } else if has_substring(lowercase_text(e.event_platform@), "ios"@) {
        "Safari Mobile"@
    } else {
        "Other"@
    }
}

pub open spec fn person_keys(w: Seq<SessionEventInfo>) -> Seq<Seq<char>> {
    w.map_values(|e: SessionEventInfo| e.person_code@)
}

pub open spec fn session_keys(w: Seq<SessionEventInfo>) -> Seq<Seq<char>> {
    w.map_values(|e: SessionEventInfo| e.session_id@)
}

pub open spec fn platform_keys(w: Seq<SessionEventInfo>) -> Seq<Seq<char>> {
    w.map_values(|e: SessionEventInfo| e.event_platform@)
}

pub open spec fn browser_keys(w: Seq<SessionEventInfo>) -> Seq<Seq<char>> {
    w.map_values(|e: SessionEventInfo| browser_of(e))
}

/// The informative browser versions of the events, in order.
pub open spec fn version_keys(w: Seq<SessionEventInfo>) -> Seq<Seq<char>>
    decreases w.len(),
{
    if w.len() == 0 {
        Seq::empty()
    } else {
        let v = version_keys(w.drop_last());
        if informative(w.last().event_chrome_version@) {
            v.push(w.last().event_chrome_version@)
        } else {
            v
        }
    }
}

/// The sessions of the window, in order of first appearance.
pub open spec fn window_sessions(w: Seq<SessionEventInfo>) -> Seq<Seq<char>> {
    distinct(session_keys(w))
}

/// Adding up the spans and page views of the sessions never leaves the
/// integer types the totals are kept in.
pub open spec fn totals_fit(w: Seq<SessionEventInfo>) -> bool {
    let ks = window_sessions(w);
    &&& forall|k: Seq<char>| ks.contains(k) ==> i64::MIN <= #[trigger] session_span(w, k) <= i64::MAX
    &&& forall|n: int| 0 <= n <= ks.len() ==> i64::MIN <= #[trigger] span_total(w, ks.take(n)) <= i64::MAX
    &&& depth_total(w, ks) <= i32::MAX
}

proof fn lemma_pageviews_prefix(w: Seq<SessionEventInfo>, o: Seq<int>, t: int)
    requires
        0 <= t <= o.len(),
    ensures
        0 <= pageviews_among(w, o.take(t)) <= pageviews_among(w, o),
    decreases o.len(),
{
    if t == o.len() {
        assert(o.take(t) =~= o);
        lemma_pageviews_nonneg(w, o);
    } else {
        lemma_pageviews_prefix(w, o.drop_last(), t);
        assert(o.drop_last().take(t) =~= o.take(t));
        lemma_pageviews_nonneg(w, o.drop_last());
    }
}

proof fn lemma_pageviews_nonneg(w: Seq<SessionEventInfo>, o: Seq<int>)
    ensures
        pageviews_among(w, o) >= 0,
    decreases o.len(),
{
    if o.len() > 0 {
        lemma_pageviews_nonneg(w, o.drop_last());
    }
}

proof fn lemma_depth_prefix(w: Seq<SessionEventInfo>, ks: Seq<Seq<char>>, n: int)
    requires
        0 <= n <= ks.len(),
    ensures
        0 <= depth_total(w, ks.take(n)) <= depth_total(w, ks),
    decreases ks.len(),
{
    if n == ks.len() {
        assert(ks.take(n) =~= ks);
        lemma_depth_nonneg(w, ks);
    } else {
        lemma_depth_prefix(w, ks.drop_last(), n);
        assert(ks.drop_last().take(n) =~= ks.take(n));
        lemma_depth_nonneg(w, ks.drop_last());
        lemma_pageviews_nonneg(w, session_order(w, ks.last()));
    }
}

proof fn lemma_depth_nonneg(w: Seq<SessionEventInfo>, ks: Seq<Seq<char>>)
    ensures
        depth_total(w, ks) >= 0,
    decreases ks.len(),
{
    if ks.len() > 0 {
        lemma_depth_nonneg(w, ks.drop_last());
        lemma_pageviews_nonneg(w, session_order(w, ks.last()));
    }
}

proof fn lemma_members_nonempty(w: Seq<SessionEventInfo>, k: Seq<char>, n: int, j: int)
    requires
        0 <= j < n <= w.len(),
        w[j].session_id@ == k,
    ensures
        session_members(w, k, n).len() > 0,
    decreases n,
{
    if j < n - 1 {
        lemma_members_nonempty(w, k, n - 1, j);
    }
}

/// Every session of the window has at least one event.
proof fn lemma_session_nonempty(w: Seq<SessionEventInfo>, k: Seq<char>)
    requires
        window_sessions(w).contains(k),
    ensures
        session_order(w, k).len() > 0,
{
    lemma_distinct_contains(session_keys(w), k);
    let j = choose|j: int| 0 <= j < session_keys(w).len() && session_keys(w)[j] == k;
    lemma_members_nonempty(w, k, w.len() as int, j);
    lemma_sort_len(w, session_members(w, k, w.len() as int));
}

/// The sum of the first `n + 1` entries is that of the first `n` plus the
/// next one.
proof fn lemma_totals_step(w: Seq<SessionEventInfo>, ks: Seq<Seq<char>>, n: int)
    requires
        0 <= n < ks.len(),
    ensures
        span_total(w, ks.take(n + 1)) == span_total(w, ks.take(n)) + session_span(w, ks[n]),
        depth_total(w, ks.take(n + 1)) == depth_total(w, ks.take(n)) + pageviews_among(w, session_order(w, ks[n])),
        entry_pages(w, ks.take(n + 1)) == match entry_page(w, ks[n]) {
            Some(t) => entry_pages(w, ks.take(n)).push(t),
            None => entry_pages(w, ks.take(n)),
        },
        exit_pages(w, ks.take(n + 1)) == match exit_page(w, ks[n]) {
            Some(t) => exit_pages(w, ks.take(n)).push(t),
            None => exit_pages(w, ks.take(n)),
        },
        trail_keys(w, ks.take(n + 1)) == match trail_key(w, ks[n]) {
            Some(t) => trail_keys(w, ks.take(n)).push(t),
            None => trail_keys(w, ks.take(n)),
        },
{
    assert(ks.take(n + 1).drop_last() =~= ks.take(n));
    let f1 = |k: Seq<char>| entry_page(w, k);
    let f2 = |k: Seq<char>| exit_page(w, k);
    let f3 = |k: Seq<char>| trail_key(w, k);
    assert(ks.take(n + 1).map_values(f1).drop_last() =~= ks.take(n).map_values(f1));
    assert(ks.take(n + 1).map_values(f2).drop_last() =~= ks.take(n).map_values(f2));
    assert(ks.take(n + 1).map_values(f3).drop_last() =~= ks.take(n).map_values(f3));
}

/// The per-event key sequences of the first `i + 1` events extend those of
/// the first `i`.
proof fn lemma_keys_step(w: Seq<SessionEventInfo>, i: int)
    requires
        0 <= i < w.len(),
    ensures
        person_keys(w.take(i + 1)) == person_keys(w.take(i)).push(w[i].person_code@),
        session_keys(w.take(i + 1)) == session_keys(w.take(i)).push(w[i].session_id@),
        platform_keys(w.take(i + 1)) == platform_keys(w.take(i)).push(w[i].event_platform@),
        browser_keys(w.take(i + 1)) == browser_keys(w.take(i)).push(browser_of(w[i])),
        version_keys(w.take(i + 1)) == if informative(w[i].event_chrome_version@) {
            version_keys(w.take(i)).push(w[i].event_chrome_version@)
        } else {
            version_keys(w.take(i))
        },
{
    assert(w.take(i + 1).drop_last() =~= w.take(i));
    assert(person_keys(w.take(i + 1)) =~= person_keys(w.take(i)).push(w[i].person_code@));
    assert(session_keys(w.take(i + 1)) =~= session_keys(w.take(i)).push(w[i].session_id@));
    assert(platform_keys(w.take(i + 1)) =~= platform_keys(w.take(i)).push(w[i].event_platform@));
    assert(browser_keys(w.take(i + 1)) =~= browser_keys(w.take(i)).push(browser_of(w[i])));
}

// ---------------------------------------------------------------------------
// Executable pieces.

pub fn is_informative(s: &String) -> (r: bool)
    ensures
        r == informative(s@),
{
    let empty = s.as_str().unicode_len() == 0;
    !empty && !str_eq(s.as_str(), "-")
}

/// The browser an event is attributed to.
pub fn browser_name(e: &SessionEventInfo) -> (r: String)
    ensures
        r@ == browser_of(*e),
{
    if is_informative(&e.event_chrome_version) {
        String::from_str("Chrome")
    } else if is_informative(&e.event_safari_version) {
        String::from_str("Safari")
    } else {
        let lower = to_lowercase(e.event_platform.as_str());
        if str_contains(lower.as_str(), "android") {
            String::from_str("Android Webview")
        } else if str_contains(lower.as_str(), "ios") {
            String::from_str("Safari Mobile")
        } else {
            String::from_str("Other")
        }
    }
}

/// Indices of the events of session `k`, in window order.
fn members_of(events: &VecDeque<SessionEventInfo>, k: &String) -> (r: Vec<usize>)
    ensures
        r@.map_values(|i: usize| i as int) == session_members(events@, k@, events@.len() as int),
{
    let n = events.len();
    let mut r: Vec<usize> = Vec::new();
    let mut j: usize = 0;
    while j < n
        invariant
            n == events@.len(),
            j <= n,
            r@.map_values(|i: usize| i as int) == session_members(events@, k@, j as int),
        decreases n - j,
    {
        if events[j].session_id == *k {
            let ghost before = r@;
            r.push(j);
            assert(r@.map_values(|i: usize| i as int) =~= before.map_values(|i: usize| i as int).push(j as int));
        }
        j = j + 1;
    }
    r
}

/// The indices `mem` sorted by event time, equal times in the order given.
fn sort_indices_by_time(events: &VecDeque<SessionEventInfo>, mem: &Vec<usize>) -> (r: Vec<usize>)
    requires
        forall|t: int| 0 <= t < mem@.len() ==> #[trigger] mem@[t] < events@.len(),
    ensures
        r@.map_values(|i: usize| i as int) == sort_by_time(events@, mem@.map_values(|i: usize| i as int)),
        forall|t: int| 0 <= t < r@.len() ==> #[trigger] r@[t] < events@.len(),
{
    let ghost w = events@;
    let ghost all = mem@.map_values(|i: usize| i as int);
    let mut sorted: Vec<usize> = Vec::new();
    let mut t: usize = 0;
    while t < mem.len()
        invariant
            w == events@,
            all == mem@.map_values(|i: usize| i as int),
            t <= mem@.len(),
            forall|q: int| 0 <= q < mem@.len() ==> #[trigger] mem@[q] < w.len(),
            forall|q: int| 0 <= q < sorted@.len() ==> #[trigger] sorted@[q] < w.len(),
            sorted@.map_values(|i: usize| i as int) == sort_by_time(w, all.take(t as int)),
        decreases mem@.len() - t,
    {
        let x = mem[t];
        let time = events[x].event_time;
        let mut p: usize = sorted.len();
        while p > 0
            invariant
                w == events@,
                x < w.len(),
                time == w[x as int].event_time,
                p <= sorted@.len(),
                forall|q: int| 0 <= q < sorted@.len() ==> #[trigger] sorted@[q] < w.len(),
                forall|j: int| p <= j < sorted@.len() ==> w[#[trigger] sorted@[j] as int].event_time > time,
            ensures
                p <= sorted@.len(),
                forall|j: int| p <= j < sorted@.len() ==> w[#[trigger] sorted@[j] as int].event_time > time,
                p > 0 ==> w[sorted@[p - 1] as int].event_time <= time,
            decreases p,
        {
            let prev = sorted[p - 1];
            assert(prev < w.len());
            if events[prev].event_time <= time {
                break;
            }
            p = p - 1;
        }
        let ghost before = sorted@.map_values(|i: usize| i as int);
        proof {
            assert(is_insert_pos(w, before, time, p as int)) by {
                assert forall|j: int| p <= j < before.len() implies w[#[trigger] before[j]].event_time > time by {
                    assert(before[j] == sorted@[j] as int);
                }
                if p > 0 {
                    assert(before[p - 1] == sorted@[p - 1] as int);
                }
            }
            lemma_insert_at(w, before, x as int, p as int);
            assert(all.take(t + 1).drop_last() =~= all.take(t as int));
            assert(all.take(t + 1).last() == x as int);
        }
        sorted.insert(p, x);
        proof {
            assert(sorted@.map_values(|i: usize| i as int) =~= before.take(p as int).push(x as int) + before.skip(p as int));
        }
        t = t + 1;
    }
    assert(all.take(mem@.len() as int) =~= all);
    sorted
}

/// The events of the last five minutes of event time, in arrival order.
pub struct RealTimeAggregator {
    events: VecDeque<SessionEventInfo>,
    window_duration: i64,
}

/// The window after dropping, from the front, the events older than
/// `cutoff` (it stops at the first event that is not older).
pub open spec fn drop_stale(s: Seq<SessionEventInfo>, cutoff: int) -> Seq<SessionEventInfo>
    decreases s.len(),
{
    if s.len() > 0 && s[0].event_time < cutoff {
        drop_stale(s.drop_first(), cutoff)
    } else {
        s
    }
}

/// The latest event time among the events (0 when there are none).
pub open spec fn latest_time(s: Seq<SessionEventInfo>) -> int
    decreases s.len(),
{
    if s.len() == 0 {
        0
    } else if s.len() == 1 {
        s[0].event_time as int
    } else {
        let m = latest_time(s.drop_last());
        if s.last().event_time > m { s.last().event_time as int } else { m }
    }
}

/// The window after pruning: the cutoff is the latest event time minus the
/// window length.
pub open spec fn pruned_window(s: Seq<SessionEventInfo>) -> Seq<SessionEventInfo> {
    if s.len() == 0 {
        s
    } else {
        drop_stale(s, latest_time(s) - WINDOW_SIZE_MS)
    }
}

/// The cutoff of the window can be computed without overflow.
pub open spec fn can_prune(s: Seq<SessionEventInfo>) -> bool {
    s.len() == 0 || latest_time(s) >= i64::MIN + WINDOW_SIZE_MS
}

/// The latest event time of a non-empty window.
fn latest_event_time(events: &VecDeque<SessionEventInfo>) -> (r: i64)
    requires
        events@.len() > 0,
    ensures
        r == latest_time(events@),
{
    let n = events.len();
    let mut m: i64 = events[0].event_time;
    let mut i: usize = 1;
    assert(events@.take(1).drop_last().len() == 0);
    while i < n
        invariant
            1 <= i <= n,
            n == events@.len(),
            m == latest_time(events@.take(i as int)),
        decreases n - i,
    {
        let t = events[i].event_time;
        proof {
            assert(events@.take(i + 1).drop_last() =~= events@.take(i as int));
            assert(events@.take(i + 1).last() == events@[i as int]);
        }
        if t > m {
            m = t;
        }
        i = i + 1;
    }
    assert(events@.take(n as int) =~= events@);
    m
}

impl RealTimeAggregator {
    #[verifier::type_invariant]
    spec fn window_is_five_minutes(self) -> bool {
        self.window_duration == WINDOW_SIZE_MS
    }

    /// The events held, oldest arrival first.
    pub closed spec fn window(self) -> Seq<SessionEventInfo> {
        self.events@
    }

    pub fn new() -> (a: Self)
        ensures
            a.window().len() == 0,
    {
        RealTimeAggregator { events: VecDeque::new(), window_duration: WINDOW_SIZE_MS }
    }

    /// Adds a new event at the back of the window.
    pub fn add_event(&mut self, event: SessionEventInfo)
        ensures
            final(self).window() == old(self).window().push(event),
    {
        proof {
            use_type_invariant(&*self);
        }
        let mut events = VecDeque::new();
        std::mem::swap(&mut events, &mut self.events);
        events.push_back(event);
        self.events = events;
    }

    /// Drops the events that fell out of the window.
    pub fn prune_events(&mut self)
        requires
            can_prune(old(self).window()),
        ensures
            final(self).window() == pruned_window(old(self).window()),
    {
        proof {
            use_type_invariant(&*self);
        }
        if self.events.len() == 0 {
            return;
        }
        let max_time = latest_event_time(&self.events);
        let cutoff_time = max_time - self.window_duration;
        let ghost target = drop_stale(self.events@, cutoff_time as int);
        let mut events = VecDeque::new();
        std::mem::swap(&mut events, &mut self.events);
        while events.len() > 0 && events[0].event_time < cutoff_time
            invariant
                drop_stale(events@, cutoff_time as int) == target,
            decreases events@.len(),
        {
            let ghost before = events@;
            events.pop_front();
            assert(events@ =~= before.drop_first());
        }
        self.events = events;
    }

    /// The page of an event, when its path is informative.
    fn get_page_path(event: &SessionEventInfo) -> (r: Option<String>)
        ensures
            r is Some <==> page_of(*event) is Some,
            r matches Some(p) ==> p@ == page_of(*event)->0,
    {
        if is_informative(&event.event_url_path) {
            Some(event.event_url_path.clone())
        } else {
            None
        }
    }
}

/// The metrics of the window. Averages are the totals over `session_count`
/// (duration, depth) or `total_events` over `session_count`.
#[derive(Clone, Debug)]
pub struct AggregatedMetrics {
    /// Distinct users.
    pub active_users: usize,
    /// Distinct sessions.
    pub session_count: usize,
    /// Sum over sessions of the time from first to last event (ms).
    pub total_session_duration: i64,
    /// Sum over sessions of their page views.
    pub total_session_depth: i32,
    /// Events per platform.
    pub device_distribution: Vec<(String, usize)>,
    /// Events per browser.
    pub browser_distribution: Vec<(String, usize)>,
    /// Events per informative browser version.
    pub version_distribution: Vec<(String, usize)>,
    /// Sessions per entry page.
    pub common_entry_pages: Vec<(String, usize)>,
    /// Sessions per exit page.
    pub common_exit_pages: Vec<(String, usize)>,
    /// Sessions per page path.
    pub popular_paths: Vec<(String, usize)>,
    /// Events in the window.
    pub total_events: usize,
}

/// `m` holds the metrics of the window `w`.
pub open spec fn metrics_of(w: Seq<SessionEventInfo>, m: AggregatedMetrics) -> bool {
    let ks = window_sessions(w);
    &&& m.total_events == w.len()
    &&& m.active_users == distinct(person_keys(w)).len()
    &&& m.session_count == ks.len()
    &&& tally_view(m.device_distribution@) == tally_of(platform_keys(w))
    &&& tally_view(m.browser_distribution@) == tally_of(browser_keys(w))
    &&& tally_view(m.version_distribution@) == tally_of(version_keys(w))
    &&& m.total_session_duration == span_total(w, ks)
    &&& m.total_session_depth == depth_total(w, ks)
    &&& tally_view(m.common_entry_pages@) == tally_of(entry_pages(w, ks))
    &&& tally_view(m.common_exit_pages@) == tally_of(exit_pages(w, ks))
    &&& tally_view(m.popular_paths@) == tally_of(trail_keys(w, ks))
}

proof fn lemma_present_len(s: Seq<Option<Seq<char>>>)
    ensures
        present(s).len() <= s.len(),
    decreases s.len(),
{
    if s.len() > 0 {
        lemma_present_len(s.drop_last());
    }
}

proof fn lemma_version_len(w: Seq<SessionEventInfo>)
    ensures
        version_keys(w).len() <= w.len(),
    decreases w.len(),
{
    if w.len() > 0 {
        lemma_version_len(w.drop_last());
    }
}

impl RealTimeAggregator {
    /// Prunes the window, then computes its metrics.
    pub fn calculate_metrics(&mut self) -> (m: AggregatedMetrics)
        requires
            can_prune(old(self).window()),
            totals_fit(pruned_window(old(self).window())),
        ensures
            final(self).window() == pruned_window(old(self).window()),
            metrics_of(final(self).window(), m),
    {
        match self.try_calculate_metrics() {
            Some(m) => m,
            None => {
                proof {
                    assert(false);
                }
                AggregatedMetrics {
                    active_users: 0,
                    session_count: 0,
                    total_session_duration: 0,
                    total_session_depth: 0,
                    device_distribution: Vec::new(),
                    browser_distribution: Vec::new(),
                    version_distribution: Vec::new(),
                    common_entry_pages: Vec::new(),
                    common_exit_pages: Vec::new(),
                    popular_paths: Vec::new(),
                    total_events: 0,
                }
            },
        }
    }

    /// Prunes the window, then computes its metrics; `None` where a cutoff,
    /// a session span or a running total would leave its integer type (the
    /// window is then left unpruned when the cutoff itself cannot be
    /// computed, and pruned otherwise).
    pub fn try_calculate_metrics(&mut self) -> (r: Option<AggregatedMetrics>)
        ensures
            r is Some <==> can_prune(old(self).window()) && totals_fit(pruned_window(old(self).window())),
            can_prune(old(self).window()) ==> final(self).window() == pruned_window(old(self).window()),
            !can_prune(old(self).window()) ==> final(self).window() == old(self).window(),
            r matches Some(m) ==> metrics_of(final(self).window(), m),
    {
        if self.events.len() > 0 && latest_event_time(&self.events) < i64::MIN + WINDOW_SIZE_MS {
            return None;
        }
        self.prune_events();
        let ghost w = self.events@;
        let n = self.events.len();
        let mut users: Vec<(String, usize)> = Vec::new();
        let mut sessions: Vec<(String, usize)> = Vec::new();
        let mut devices: Vec<(String, usize)> = Vec::new();
        let mut versions: Vec<(String, usize)> = Vec::new();
        let mut browsers: Vec<(String, usize)> = Vec::new();
        let mut i: usize = 0;
        assert(person_keys(w.take(0)) =~= Seq::<Seq<char>>::empty());
        assert(session_keys(w.take(0)) =~= Seq::<Seq<char>>::empty());
        assert(platform_keys(w.take(0)) =~= Seq::<Seq<char>>::empty());
        assert(browser_keys(w.take(0)) =~= Seq::<Seq<char>>::empty());
        assert(version_keys(w.take(0)) =~= Seq::<Seq<char>>::empty());
        assert(tally_of(Seq::<Seq<char>>::empty()) =~= Seq::<(Seq<char>, nat)>::empty());
        while i < n
            invariant
                w == self.events@,
                w == pruned_window(old(self).events@),
                n == w.len(),
                i <= n,
                tally_view(users@) == tally_of(person_keys(w.take(i as int))),
                tally_view(sessions@) == tally_of(session_keys(w.take(i as int))),
                tally_view(devices@) == tally_of(platform_keys(w.take(i as int))),
                tally_view(versions@) == tally_of(version_keys(w.take(i as int))),
                tally_view(browsers@) == tally_of(browser_keys(w.take(i as int))),
            decreases n - i,
        {
            let event = &self.events[i];
            proof {
                lemma_keys_step(w, i as int);
                lemma_version_len(w.take(i as int));
            }
            tally_add(&mut users, Ghost(person_keys(w.take(i as int))), &event.person_code);
            tally_add(&mut sessions, Ghost(session_keys(w.take(i as int))), &event.session_id);
            tally_add(&mut devices, Ghost(platform_keys(w.take(i as int))), &event.event_platform);
            if is_informative(&event.event_chrome_version) {
                tally_add(&mut versions, Ghost(version_keys(w.take(i as int))), &event.event_chrome_version);
            }
            let browser = browser_name(event);
            tally_add(&mut browsers, Ghost(browser_keys(w.take(i as int))), &browser);
            i = i + 1;
        }
        assert(w.take(n as int) =~= w);
        let ghost ks = window_sessions(w);
        let mut entries: Vec<(String, usize)> = Vec::new();
        let mut exits: Vec<(String, usize)> = Vec::new();
        let mut paths: Vec<(String, usize)> = Vec::new();
        let mut total_duration: i64 = 0;
        let mut total_pv_depth: i32 = 0;
        let mut s: usize = 0;
        assert(tally_view(sessions@).len() == sessions@.len());
        assert(ks.take(0) =~= Seq::<Seq<char>>::empty());
        assert(entry_pages(w, ks.take(0)) =~= Seq::<Seq<char>>::empty());
        assert(exit_pages(w, ks.take(0)) =~= Seq::<Seq<char>>::empty());
        assert(trail_keys(w, ks.take(0)) =~= Seq::<Seq<char>>::empty());
        while s < sessions.len()
            invariant
                w == self.events@,
                w == pruned_window(old(self).events@),
                n == w.len(),
                ks == window_sessions(w),
                forall|j: int| 0 <= j < s ==> i64::MIN <= #[trigger] session_span(w, ks[j]) <= i64::MAX,
                forall|j: int| 0 <= j <= s ==> i64::MIN <= #[trigger] span_total(w, ks.take(j)) <= i64::MAX,
                tally_view(sessions@) == tally_of(session_keys(w)),
                sessions@.len() == ks.len(),
                s <= sessions@.len(),
                total_duration == span_total(w, ks.take(s as int)),
                total_pv_depth == depth_total(w, ks.take(s as int)),
                tally_view(entries@) == tally_of(entry_pages(w, ks.take(s as int))),
                tally_view(exits@) == tally_of(exit_pages(w, ks.take(s as int))),
                tally_view(paths@) == tally_of(trail_keys(w, ks.take(s as int))),
            decreases sessions@.len() - s,
        {
            let key = &sessions[s].0;
            let ghost k = ks[s as int];
            proof {
                assert(tally_view(sessions@)[s as int] == tally_of(session_keys(w))[s as int]);
                assert(key@ == k);
                assert(ks.contains(k));
                lemma_session_nonempty(w, k);
                lemma_totals_step(w, ks, s as int);
                lemma_depth_prefix(w, ks, s as int + 1);
                lemma_depth_prefix(w, ks, s as int);
                lemma_present_len(ks.take(s as int).map_values(|k: Seq<char>| entry_page(w, k)));
                lemma_present_len(ks.take(s as int).map_values(|k: Seq<char>| exit_page(w, k)));
                lemma_present_len(ks.take(s as int).map_values(|k: Seq<char>| trail_key(w, k)));
            }
            let members = members_of(&self.events, key);
            proof {
                assert forall|t: int| 0 <= t < members@.len() implies #[trigger] members@[t] < w.len() by {
                    lemma_members_bounded(w, k, w.len() as int);
                    assert(members@.map_values(|x: usize| x as int)[t] == members@[t] as int);
                }
            }
            let sorted = sort_indices_by_time(&self.events, &members);
            let ghost o = sort_by_time(w, members@.map_values(|x: usize| x as int));
            proof {
                assert(o == session_order(w, k));
                assert(sorted@.len() == o.len());
                assert(sorted@.map_values(|x: usize| x as int)[0] == sorted@[0] as int);
                assert(sorted@.map_values(|x: usize| x as int)[sorted@.len() - 1] == sorted@[sorted@.len() - 1] as int);
            }
            let first = sorted[0];
            let last = sorted[sorted.len() - 1];
            proof {
                assert(ks.take(s as int + 1).last() == k);
            }
            let duration = match self.events[last].event_time.checked_sub(self.events[first].event_time) {
                Some(d) => d,
                None => {
                    proof {
                        assert(!(i64::MIN <= session_span(w, k) <= i64::MAX));
                    }
                    return None;
                },
            };
            total_duration = match total_duration.checked_add(duration) {
                Some(t) => t,
                None => {
                    proof {
                        assert(!(i64::MIN <= span_total(w, ks.take(s as int + 1)) <= i64::MAX));
                    }
                    return None;
                },
            };
            match Self::get_page_path(&self.events[first]) {
                Some(p) => tally_add(&mut entries, Ghost(entry_pages(w, ks.take(s as int))), &p),
                None => {},
            }
            match Self::get_page_path(&self.events[last]) {
                Some(p) => tally_add(&mut exits, Ghost(exit_pages(w, ks.take(s as int))), &p),
                None => {},
            }
            let mut trail: Vec<String> = Vec::new();
            let mut pv_count: i32 = 0;
            let mut t: usize = 0;
            while t < sorted.len()
                invariant
                    w == self.events@,
                    w == pruned_window(old(self).events@),
                    o == sorted@.map_values(|x: usize| x as int),
                    forall|q: int| 0 <= q < sorted@.len() ==> #[trigger] sorted@[q] < w.len(),
                    t <= sorted@.len(),
                    ks == window_sessions(w),
                    s < ks.len(),
                    o == session_order(w, ks[s as int]),
                    pv_count == pageviews_among(w, o.take(t as int)),
                    trail@.map_values(|p: String| p@) == page_trail(w, o.take(t as int)),
                decreases sorted@.len() - t,
            {
                let idx = sorted[t];
                proof {
                    assert(o.take(t + 1).drop_last() =~= o.take(t as int));
                    assert(o.take(t + 1).last() == idx as int);
                    lemma_pageviews_prefix(w, o, t + 1);
                }
                let evt = &self.events[idx];
                if evt.event_type == DataPointEventType::Pageview {
                    if pv_count == i32::MAX {
                        proof {
                            lemma_depth_prefix(w, ks, s as int + 1);
                            lemma_totals_step(w, ks, s as int);
                            lemma_depth_prefix(w, ks, s as int);
                        }
                        return None;
                    }
                    pv_count = pv_count + 1;
                    if let Some(p) = Self::get_page_path(evt) {
                        let ghost before = trail@;
                        trail.push(p);
                        assert(trail@.map_values(|p: String| p@) =~= before.map_values(|p: String| p@).push(evt.event_url_path@));
                    }
                }
                t = t + 1;
            }
            assert(o.take(sorted@.len() as int) =~= o);
            total_pv_depth = match total_pv_depth.checked_add(pv_count) {
                Some(t) => t,
                None => {
                    proof {
                        lemma_depth_prefix(w, ks, s as int + 1);
                    }
                    return None;
                },
            };
            if trail.len() > 0 {
                let path_str = join_strings(&trail, " -> ");
                tally_add(&mut paths, Ghost(trail_keys(w, ks.take(s as int))), &path_str);
            }
            s = s + 1;
        }
        assert(ks.take(ks.len() as int) =~= ks);
        proof {
            assert forall|k: Seq<char>| ks.contains(k) implies i64::MIN <= #[trigger] session_span(w, k) <= i64::MAX by {
                let j = choose|j: int| 0 <= j < ks.len() && ks[j] == k;
                assert(i64::MIN <= session_span(w, ks[j]) <= i64::MAX);
            }
            assert(totals_fit(w));
        }
        Some(AggregatedMetrics {
            active_users: users.len(),
            session_count: sessions.len(),
            total_session_duration: total_duration,
            total_session_depth: total_pv_depth,
            device_distribution: devices,
            browser_distribution: browsers,
            version_distribution: versions,
            common_entry_pages: entries,
            common_exit_pages: exits,
            popular_paths: paths,
            total_events: n,
        })
    }
}

proof fn lemma_members_bounded(w: Seq<SessionEventInfo>, k: Seq<char>, n: int)
    requires
        n <= w.len(),
    ensures
        forall|t: int| 0 <= t < session_members(w, k, n).len() ==> 0 <= #[trigger] session_members(w, k, n)[t] < n,
    decreases n,
{
    if n > 0 {
        lemma_members_bounded(w, k, n - 1);
        let m = session_members(w, k, n - 1);
        if w[n - 1].session_id@ == k {
            assert forall|t: int| 0 <= t < m.push(n - 1).len() implies 0 <= #[trigger] m.push(n - 1)[t] < n by {
                if t < m.len() {
                    assert(m.push(n - 1)[t] == m[t]);
                }
            }
        }
    }
}

/// The latest time of a non-empty window is the time of one of its events,
/// and no event of it is later.
pub proof fn lemma_latest_bounds(s: Seq<SessionEventInfo>)
    requires
        s.len() > 0,
    ensures
        forall|j: int| 0 <= j < s.len() ==> #[trigger] s[j].event_time <= latest_time(s),
        exists|j: int| 0 <= j < s.len() && #[trigger] s[j].event_time == latest_time(s),
    decreases s.len(),
{
    if s.len() == 1 {
        assert(s[0].event_time == latest_time(s));
    } else {
        let t = s.drop_last();
        lemma_latest_bounds(t);
        let k = choose|j: int| 0 <= j < t.len() && #[trigger] t[j].event_time == latest_time(t);
        assert(t[k] == s[k]);
        assert forall|j: int| 0 <= j < s.len() implies #[trigger] s[j].event_time <= latest_time(s) by {
            if j < t.len() {
                assert(t[j] == s[j]);
            }
        }
        if s.last().event_time > latest_time(t) {
            assert(s[s.len() - 1].event_time == latest_time(s));
        } else {
            assert(s[k].event_time == latest_time(s));
        }
    }
}

proof fn lemma_latest_is(s: Seq<SessionEventInfo>, m: int)
    requires
        s.len() > 0,
        forall|j: int| 0 <= j < s.len() ==> #[trigger] s[j].event_time <= m,
        exists|j: int| 0 <= j < s.len() && #[trigger] s[j].event_time == m,
    ensures
        latest_time(s) == m,
{
    lemma_latest_bounds(s);
    let a = choose|j: int| 0 <= j < s.len() && #[trigger] s[j].event_time == latest_time(s);
    let b = choose|j: int| 0 <= j < s.len() && #[trigger] s[j].event_time == m;
    assert(s[a].event_time <= m);
    assert(s[b].event_time <= latest_time(s));
}

/// Dropping stale events removes a prefix of older events and stops at the
/// first event that is not older than the cutoff.
pub proof fn lemma_drop_stale_suffix(s: Seq<SessionEventInfo>, cutoff: int) -> (d: int)
    ensures
        0 <= d <= s.len(),
        drop_stale(s, cutoff) == s.skip(d),
        forall|j: int| 0 <= j < d ==> #[trigger] s[j].event_time < cutoff,
        d < s.len() ==> s[d].event_time >= cutoff,
    decreases s.len(),
{
    if s.len() > 0 && s[0].event_time < cutoff {
        let t = s.drop_first();
        let e = lemma_drop_stale_suffix(t, cutoff);
        assert(t.skip(e) =~= s.skip(e + 1));
        assert forall|j: int| 0 <= j < e + 1 implies #[trigger] s[j].event_time < cutoff by {
            if j > 0 {
                assert(s[j] == t[j - 1]);
            }
        }
        e + 1
    } else {
        assert(s.skip(0) =~= s);
        0
    }
}

/// Pruning keeps the latest-arrived event and the latest event time, and
/// pruning a pruned window changes nothing.
pub proof fn lemma_prune_idempotent(s: Seq<SessionEventInfo>)
    requires
        can_prune(s),
    ensures
        s.len() > 0 ==> pruned_window(s).len() > 0 && pruned_window(s).last() == s.last(),
        s.len() > 0 ==> latest_time(pruned_window(s)) == latest_time(s),
        can_prune(pruned_window(s)),
        pruned_window(pruned_window(s)) == pruned_window(s),
{
    if s.len() > 0 {
        let m = latest_time(s);
        let c = m - WINDOW_SIZE_MS;
        lemma_latest_bounds(s);
        let k = choose|j: int| 0 <= j < s.len() && #[trigger] s[j].event_time == m;
        let d = lemma_drop_stale_suffix(s, c);
        if d > k {
            assert(s[k].event_time < c);
        }
        let p = s.skip(d);
        assert(p.len() > 0);
        assert(p[k - d] == s[k]);
        assert forall|j: int| 0 <= j < p.len() implies #[trigger] p[j].event_time <= m by {
            assert(p[j] == s[j + d]);
        }
        lemma_latest_is(p, m);
        assert(p[0] == s[d]);
        assert(p.last() == s.last());
    }
}

/// Pruning a non-empty window drops a front run of events each more than
/// the window length before the latest event time, and keeps the rest from
/// the first event that is not: at least the event at the latest time stays.
pub proof fn lemma_prune_drops_only_stale(s: Seq<SessionEventInfo>)
    requires
        s.len() > 0,
    ensures
        exists|d: int| #![trigger s.skip(d)]
            0 <= d < s.len()
            && pruned_window(s) == s.skip(d)
            && (forall|j: int| 0 <= j < d ==> #[trigger] s[j].event_time < latest_time(s) - WINDOW_SIZE_MS)
            && s[d].event_time >= latest_time(s) - WINDOW_SIZE_MS,
{
    let m = latest_time(s);
    let c = m - WINDOW_SIZE_MS;
    lemma_latest_bounds(s);
    let k = choose|j: int| 0 <= j < s.len() && #[trigger] s[j].event_time == m;
    let d = lemma_drop_stale_suffix(s, c);
    if d > k {
        assert(s[k].event_time < c);
    }
    assert(pruned_window(s) == s.skip(d));
}

/// Each event of the window is counted once in the platform and browser
/// distributions, and there are no more users or sessions than events.
pub proof fn lemma_metrics_account_for_every_event(w: Seq<SessionEventInfo>, m: AggregatedMetrics)
    requires
        metrics_of(w, m),
    ensures
        count_total(tally_view(m.device_distribution@)) == m.total_events,
        count_total(tally_view(m.browser_distribution@)) == m.total_events,
        count_total(tally_view(m.version_distribution@)) <= m.total_events,
        m.active_users <= m.total_events,
        m.session_count <= m.total_events,
{
    lemma_tally_total(platform_keys(w));
    lemma_tally_total(browser_keys(w));
    lemma_tally_total(version_keys(w));
    lemma_version_len(w);
    lemma_tally_total(person_keys(w));
    lemma_tally_total(session_keys(w));
}

/// The number of events of the window with an informative Chrome version.
pub open spec fn chrome_events(w: Seq<SessionEventInfo>) -> nat
    decreases w.len(),
{
    if w.len() == 0 {
        0
    } else {
        chrome_events(w.drop_last()) + if informative(w.last().event_chrome_version@) { 1nat } else { 0nat }
    }
}

/// The number of events of the window with an informative Safari version
/// and no informative Chrome version.
pub open spec fn safari_only_events(w: Seq<SessionEventInfo>) -> nat
    decreases w.len(),
{
    if w.len() == 0 {
        0
    } else {
        safari_only_events(w.drop_last()) + if !informative(w.last().event_chrome_version@)
            && informative(w.last().event_safari_version@) { 1nat } else { 0nat }
    }
}

/// An event's browser: Chrome when it reports an informative Chrome
/// version, whatever else it reports; otherwise Safari when it reports an
/// informative Safari version; neither name otherwise.
pub proof fn lemma_browser_of_event(e: SessionEventInfo)
    ensures
        informative(e.event_chrome_version@) ==> browser_of(e) == "Chrome"@,
        !informative(e.event_chrome_version@) && informative(e.event_safari_version@) ==> browser_of(e) == "Safari"@,
        (browser_of(e) == "Chrome"@) <==> informative(e.event_chrome_version@),
        (browser_of(e) == "Safari"@) <==> (!informative(e.event_chrome_version@) && informative(e.event_safari_version@)),
        !informative(e.event_chrome_version@) && !informative(e.event_safari_version@)
            && has_substring(lowercase_text(e.event_platform@), "android"@) ==> browser_of(e) == "Android Webview"@,
        !informative(e.event_chrome_version@) && !informative(e.event_safari_version@)
            && !has_substring(lowercase_text(e.event_platform@), "android"@)
            && has_substring(lowercase_text(e.event_platform@), "ios"@) ==> browser_of(e) == "Safari Mobile"@,
        !informative(e.event_chrome_version@) && !informative(e.event_safari_version@)
            && !has_substring(lowercase_text(e.event_platform@), "android"@)
            && !has_substring(lowercase_text(e.event_platform@), "ios"@) ==> browser_of(e) == "Other"@,
{
    reveal_strlit("Chrome");
    reveal_strlit("Safari");
    reveal_strlit("Android Webview");
    reveal_strlit("Safari Mobile");
    reveal_strlit("Other");
    assert("Chrome"@[0] != "Safari"@[0]);
    assert("Chrome"@.len() != "Android Webview"@.len());
    assert("Chrome"@.len() != "Safari Mobile"@.len());
    assert("Chrome"@.len() != "Other"@.len());
    assert("Safari"@.len() != "Android Webview"@.len());
    assert("Safari"@.len() != "Safari Mobile"@.len());
    assert("Safari"@.len() != "Other"@.len());
}

proof fn lemma_browser_counts(w: Seq<SessionEventInfo>)
    ensures
        occurrences(browser_keys(w), "Chrome"@) == chrome_events(w),
        occurrences(browser_keys(w), "Safari"@) == safari_only_events(w),
    decreases w.len(),
{
    if w.len() > 0 {
        lemma_browser_counts(w.drop_last());
        lemma_browser_of_event(w.last());
        assert(browser_keys(w).drop_last() =~= browser_keys(w.drop_last()));
        assert(browser_keys(w).last() == browser_of(w.last()));
    }
}

/// The browser distribution counts under "Chrome" exactly the events of the
/// window with an informative Chrome version (whatever their Safari version
/// or platform), and under "Safari" exactly those with an informative Safari
/// version and no informative Chrome version.
pub proof fn lemma_browser_attribution(w: Seq<SessionEventInfo>, m: AggregatedMetrics)
    requires
        metrics_of(w, m),
    ensures
        count_for(tally_view(m.browser_distribution@), "Chrome"@) == chrome_events(w),
        count_for(tally_view(m.browser_distribution@), "Safari"@) == safari_only_events(w),
{
    lemma_browser_counts(w);
    lemma_count_for_tally(browser_keys(w), "Chrome"@);
    lemma_count_for_tally(browser_keys(w), "Safari"@);
}

/// The number of events of the window from platform `k`.
pub open spec fn platform_events(w: Seq<SessionEventInfo>, k: Seq<char>) -> nat
    decreases w.len(),
{
    if w.len() == 0 {
        0
    } else {
        platform_events(w.drop_last(), k) + if w.last().event_platform@ == k { 1nat } else { 0nat }
    }
}

/// The number of events of the window that report Chrome version `v`.
pub open spec fn chrome_version_events(w: Seq<SessionEventInfo>, v: Seq<char>) -> nat
    decreases w.len(),
{
    if w.len() == 0 {
        0
    } else {
        chrome_version_events(w.drop_last(), v) + if w.last().event_chrome_version@ == v { 1nat } else { 0nat }
    }
}

proof fn lemma_platform_and_version_counts(w: Seq<SessionEventInfo>, k: Seq<char>)
    ensures
        occurrences(platform_keys(w), k) == platform_events(w, k),
        informative(k) ==> occurrences(version_keys(w), k) == chrome_version_events(w, k),
        !informative(k) ==> occurrences(version_keys(w), k) == 0,
    decreases w.len(),
{
    if w.len() > 0 {
        lemma_platform_and_version_counts(w.drop_last(), k);
        assert(platform_keys(w).drop_last() =~= platform_keys(w.drop_last()));
        assert(platform_keys(w).last() == w.last().event_platform@);
        let v = version_keys(w.drop_last());
        let x = w.last().event_chrome_version@;
        if informative(x) {
            assert(v.push(x).drop_last() =~= v);
            assert(v.push(x).last() == x);
            assert(occurrences(v.push(x), k) == occurrences(v, k) + if x == k { 1nat } else { 0nat });
        }
    }
}

/// The device distribution counts each platform by the number of events
/// from it, and the version distribution counts each informative Chrome
/// version by the number of events reporting it (an empty or `-` version is
/// not counted).
pub proof fn lemma_device_and_version_counts(w: Seq<SessionEventInfo>, m: AggregatedMetrics, k: Seq<char>)
    requires
        metrics_of(w, m),
    ensures
        count_for(tally_view(m.device_distribution@), k) == platform_events(w, k),
        informative(k) ==> count_for(tally_view(m.version_distribution@), k) == chrome_version_events(w, k),
        !informative(k) ==> count_for(tally_view(m.version_distribution@), k) == 0,
{
    lemma_platform_and_version_counts(w, k);
    lemma_count_for_tally(platform_keys(w), k);
    lemma_count_for_tally(version_keys(w), k);
}

} // verus!
