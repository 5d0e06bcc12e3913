//! Per-user feature helpers: day spans, the 24-bucket hour histogram, and
//! keyed frequency tables with their top entries.
use vstd::prelude::*;
use vstd::string::*;
use crate::external::{hour_of_millis, utc_formatted_millis, utc_format_millis, utc_hour_of_millis, utc_millis_representable, ua_extract_device};
use crate::text::str_eq;

verus! {

/// Milliseconds in a day.
pub const MILLIS_PER_DAY: i64 = 86400000;

/// Whole days from `start_ms` to `end_ms`; a span that does not move forward
/// counts as one day.
pub open spec fn day_span(start_ms: int, end_ms: int) -> int {
    if end_ms <= start_ms {
        1
    } else {
        (end_ms - start_ms) / 86400000
    }
}

pub fn time_diff_to_day(start_ms: i64, end_ms: i64) -> (r: i64)
    requires
        end_ms <= start_ms || end_ms - start_ms <= i64::MAX,
    ensures
        r == day_span(start_ms as int, end_ms as int),
{
    if end_ms <= start_ms {
        return 1;
    }
    let diff = end_ms - start_ms;
    diff / MILLIS_PER_DAY
}

/// A histogram of activity per hour of the day: 24 buckets, bucket `i`
/// labelled with hour `i`.
pub open spec fn is_hour_histogram(h: Seq<(i64, i64)>) -> bool {
    &&& h.len() == 24
    &&& forall|i: int| 0 <= i < 24 ==> #[trigger] h[i].0 == i
}

pub fn init_hour_histogram() -> (h: Vec<(i64, i64)>)
    ensures
        is_hour_histogram(h@),
        forall|i: int| 0 <= i < 24 ==> #[trigger] h@[i].1 == 0,
{
    let mut histogram: Vec<(i64, i64)> = Vec::new();
    let mut i: i64 = 0;
    while i < 24
        invariant
            0 <= i <= 24,
            histogram@.len() == i,
            forall|j: int| 0 <= j < i ==> #[trigger] histogram@[j] == (j as i64, 0i64),
        decreases 24 - i,
    {
        histogram.push((i, 0));
        i = i + 1;
    }
    histogram
}

/// The UTC date-time text and hour of a millisecond timestamp, or `None`
/// when the calendar cannot represent it.
pub fn format_ts_and_hour(timestamp_ms: i64) -> (r: Option<(String, u32)>)
    ensures
        r is Some <==> utc_millis_representable(timestamp_ms),
        r matches Some(p) ==> p.0@ == utc_formatted_millis(timestamp_ms) && p.1 == hour_of_millis(
            timestamp_ms as int,
        ),
{
    match utc_format_millis(timestamp_ms) {
        Some(text) => match utc_hour_of_millis(timestamp_ms) {
            Some(hour) => Some((text, hour)),
            None => None,
        },
        None => None,
    }
}

/// The histogram after counting one event at `timestamp_ms`: the bucket of
/// its hour is relabelled with the hour and its count goes up by one; an
/// unrepresentable timestamp changes nothing.
pub open spec fn histogram_after_event(h: Seq<(i64, i64)>, timestamp_ms: i64) -> Seq<(i64, i64)> {
    if utc_millis_representable(timestamp_ms) {
        let hour = hour_of_millis(timestamp_ms as int);
        h.update(hour % 24, (hour as i64, (h[hour % 24].1 + 1) as i64))
    } else {
        h
    }
}

/// Counting an event at `timestamp_ms` finds its bucket and cannot overflow it.
pub open spec fn can_count_event(h: Seq<(i64, i64)>, timestamp_ms: i64) -> bool {
    utc_millis_representable(timestamp_ms) ==> {
        let b = hour_of_millis(timestamp_ms as int) % 24;
        b < h.len() && h[b].1 < i64::MAX
    }
}

pub fn update_hour_histogram(histogram: &mut Vec<(i64, i64)>, timestamp_ms: i64)
    requires
        can_count_event(old(histogram)@, timestamp_ms),
    ensures
        final(histogram)@ == histogram_after_event(old(histogram)@, timestamp_ms),
{
    match utc_hour_of_millis(timestamp_ms) {
        Some(h) => {
            let hour = h as i64;
            let idx = (hour % 24) as usize;
            let count = histogram[idx].1;
            histogram.set(idx, (hour, count + 1));
        },
        None => {},
    }
}

/// `j` holds the first of the largest positive counts of the histogram.
pub open spec fn is_first_peak(h: Seq<(i64, i64)>, j: int) -> bool {
    &&& 0 <= j < h.len()
    &&& h[j].1 > 0
    &&& forall|k: int| 0 <= k < h.len() ==> #[trigger] h[k].1 <= h[j].1
    &&& forall|k: int| 0 <= k < j ==> #[trigger] h[k].1 < h[j].1
}

/// The hour of the first of the largest positive counts, or 0 when no count
/// is positive (the label is cut to a byte).
pub open spec fn peak_hour(h: Seq<(i64, i64)>) -> u8 {
    if exists|j: int| is_first_peak(h, j) {
        h[choose|j: int| is_first_peak(h, j)].0 as u8
    } else {
        0
    }
}

/// At most one row is the first of the largest positive counts.
pub proof fn lemma_first_peak_unique(h: Seq<(i64, i64)>, a: int, b: int)
    requires
        is_first_peak(h, a),
        is_first_peak(h, b),
    ensures
        a == b,
{
    if a < b {
        assert(h[a].1 < h[b].1);
    } else if b < a {
        assert(h[b].1 < h[a].1);
    }
}

pub fn get_peak_hour(histogram: &Vec<(i64, i64)>) -> (r: u8)
    ensures
        r == peak_hour(histogram@),
        (exists|j: int| is_first_peak(histogram@, j)) <==> (exists|k: int|
            0 <= k < histogram@.len() && #[trigger] histogram@[k].1 > 0),
{
    let mut peak_hour: u8 = 0;
    let mut max_count: i64 = 0;
    let mut best: usize = 0;
    let mut i: usize = 0;
    while i < histogram.len()
        invariant
            i <= histogram@.len(),
            max_count >= 0,
            forall|k: int| 0 <= k < i ==> #[trigger] histogram@[k].1 <= max_count,
            max_count == 0 ==> peak_hour == 0,
            max_count > 0 ==> best < i && histogram@[best as int].1 == max_count
                && peak_hour == histogram@[best as int].0 as u8
                && forall|k: int| 0 <= k < best ==> #[trigger] histogram@[k].1 < max_count,
        decreases histogram@.len() - i,
    {
        let (hour, count) = histogram[i];
        if count > max_count {
            max_count = count;
            peak_hour = hour as u8;
            best = i;
        }
        i = i + 1;
    }
    proof {
        if max_count > 0 {
            assert(is_first_peak(histogram@, best as int));
            let c = choose|j: int| is_first_peak(histogram@, j);
            lemma_first_peak_unique(histogram@, c, best as int);
            assert(histogram@[best as int].1 > 0);
        } else {
            assert forall|j: int| !is_first_peak(histogram@, j) by {
                if 0 <= j < histogram@.len() {
                    assert(histogram@[j].1 <= max_count);
                }
            }
            assert forall|k: int| 0 <= k < histogram@.len() implies !(#[trigger] histogram@[k].1 > 0) by {
                assert(histogram@[k].1 <= max_count);
            }
        }
    }
    peak_hour
}

/// Sum of the counts of the buckets labelled with an hour of at least `from`.
pub open spec fn count_sum_from(h: Seq<(i64, i64)>, from: i64) -> int
    decreases h.len(),
{
    if h.len() == 0 {
        0
    } else {
        count_sum_from(h.drop_last(), from) + if h.last().0 >= from {
            h.last().1 as int
        } else {
            0
        }
    }
}

/// Every running sum of the buckets labelled at least `from`, taken while
/// adding up the histogram in order, stays within `i64`.
pub open spec fn prefix_sums_fit(h: Seq<(i64, i64)>, from: i64) -> bool {
    forall|n: int| 0 <= n <= h.len() ==> i64::MIN <= #[trigger] count_sum_from(h.take(n), from) <= i64::MAX
}

/// The running night-time and overall sums of the histogram stay within
/// `i64`.
pub open spec fn sums_fit(h: Seq<(i64, i64)>) -> bool {
    prefix_sums_fit(h, 22) && prefix_sums_fit(h, i64::MIN)
}

/// A user is a night owl when at least a third of the activity (strictly
/// more than one third) falls at 22:00 or later.
pub open spec fn night_owl(h: Seq<(i64, i64)>) -> bool {
    count_sum_from(h, 22) * 3 > count_sum_from(h, i64::MIN)
}

proof fn lemma_take_full_count(h: Seq<(i64, i64)>, from: i64)
    ensures
        count_sum_from(h.take(h.len() as int), from) == count_sum_from(h, from),
{
    assert(h.take(h.len() as int) =~= h);
}

pub fn is_night_cat(histogram: &Vec<(i64, i64)>) -> (r: bool)
    requires
        sums_fit(histogram@),
        i64::MIN <= count_sum_from(histogram@, 22) * 3 <= i64::MAX,
    ensures
        r == night_owl(histogram@),
{
    let night_start: i64 = 22;
    let mut night_count: i64 = 0;
    let mut total_count: i64 = 0;
    let mut i: usize = 0;
    while i < histogram.len()
        invariant
            i <= histogram@.len(),
            sums_fit(histogram@),
            night_start == 22,
            night_count == count_sum_from(histogram@.take(i as int), 22),
            total_count == count_sum_from(histogram@.take(i as int), i64::MIN),
        decreases histogram@.len() - i,
    {
        let (hour, count) = histogram[i];
        proof {
            assert(histogram@.take(i + 1).drop_last() =~= histogram@.take(i as int));
            assert(histogram@.take(i + 1).last() == histogram@[i as int]);
            assert(i64::MIN <= count_sum_from(histogram@.take(i + 1), 22) <= i64::MAX);
            assert(i64::MIN <= count_sum_from(histogram@.take(i + 1), i64::MIN) <= i64::MAX);
        }
        if hour >= night_start {
            night_count = night_count + count;
        }
        total_count = total_count + count;
        i = i + 1;
    }
    proof {
        lemma_take_full_count(histogram@, 22);
        lemma_take_full_count(histogram@, i64::MIN);
    }
    night_count * 3 > total_count
}

/// Whether `is_night_cat` can add up the histogram: its running sums stay
/// within `i64` and so does three times the night-time sum.
pub fn night_sums_fit(histogram: &Vec<(i64, i64)>) -> (r: bool)
    ensures
        r == (sums_fit(histogram@) && i64::MIN <= count_sum_from(histogram@, 22) * 3 <= i64::MAX),
{
    let mut night_count: i64 = 0;
    let mut total_count: i64 = 0;
    let mut i: usize = 0;
    assert(histogram@.take(0) =~= Seq::<(i64, i64)>::empty());
    while i < histogram.len()
        invariant
            i <= histogram@.len(),
            night_count == count_sum_from(histogram@.take(i as int), 22),
            total_count == count_sum_from(histogram@.take(i as int), i64::MIN),
            forall|n: int| 0 <= n <= i ==> i64::MIN <= #[trigger] count_sum_from(histogram@.take(n), 22) <= i64::MAX,
            forall|n: int| 0 <= n <= i ==> i64::MIN <= #[trigger] count_sum_from(histogram@.take(n), i64::MIN) <= i64::MAX,
        decreases histogram@.len() - i,
    {
        let (hour, count) = histogram[i];
        proof {
            assert(histogram@.take(i + 1).drop_last() =~= histogram@.take(i as int));
            assert(histogram@.take(i + 1).last() == histogram@[i as int]);
        }
        if hour >= 22 {
            match night_count.checked_add(count) {
                Some(c) => night_count = c,
                None => {
                    assert(!prefix_sums_fit(histogram@, 22)) by {
                        assert(!(i64::MIN <= count_sum_from(histogram@.take(i + 1), 22) <= i64::MAX));
                    }
                    return false;
                },
            }
        }
        match total_count.checked_add(count) {
            Some(c) => total_count = c,
            None => {
                assert(!prefix_sums_fit(histogram@, i64::MIN)) by {
                    assert(!(i64::MIN <= count_sum_from(histogram@.take(i + 1), i64::MIN) <= i64::MAX));
                }
                return false;
            },
        }
        i = i + 1;
    }
    proof {
        lemma_take_full_count(histogram@, 22);
    }
    night_count.checked_mul(3).is_some()
}

/// Whether counting an event at `timestamp_ms` finds its bucket without
/// overflowing it.
pub fn can_count_event_exec(histogram: &Vec<(i64, i64)>, timestamp_ms: i64) -> (r: bool)
    ensures
        r == can_count_event(histogram@, timestamp_ms),
{
    match utc_hour_of_millis(timestamp_ms) {
        None => true,
        Some(h) => {
            let b = (h % 24) as usize;
            b < histogram.len() && histogram[b].1 < i64::MAX
        },
    }
}

/// The histogram as it will be after counting an event at `timestamp_ms`,
/// computed on a copy.
pub fn histogram_with_event(histogram: &Vec<(i64, i64)>, timestamp_ms: i64) -> (r: Vec<(i64, i64)>)
    requires
        can_count_event(histogram@, timestamp_ms),
    ensures
        r@ == histogram_after_event(histogram@, timestamp_ms),
{
    let mut copy: Vec<(i64, i64)> = Vec::new();
    let mut i: usize = 0;
    while i < histogram.len()
        invariant
            i <= histogram@.len(),
            copy@ == histogram@.take(i as int),
        decreases histogram@.len() - i,
    {
        copy.push(histogram[i]);
        i = i + 1;
        assert(copy@ =~= histogram@.take(i as int));
    }
    assert(histogram@.take(histogram@.len() as int) =~= histogram@);
    update_hour_histogram(&mut copy, timestamp_ms);
    copy
}

/// A frequency table read as (key text, count) pairs.
pub open spec fn table_view(h: Seq<(String, i64)>) -> Seq<(Seq<char>, i64)> {
    h.map_values(|p: (String, i64)| (p.0@, p.1))
}

/// `j` is the first row of the table whose key is `key`.
pub open spec fn is_first_row(h: Seq<(Seq<char>, i64)>, key: Seq<char>, j: int) -> bool {
    &&& 0 <= j < h.len()
    &&& h[j].0 == key
    &&& forall|k: int| 0 <= k < j ==> #[trigger] h[k].0 != key
}

/// The table after counting `key` once more: the first row with that key
/// goes up by one, or a new row `(key, 1)` is appended at the end.
pub open spec fn table_after_count(h: Seq<(Seq<char>, i64)>, key: Seq<char>) -> Seq<(Seq<char>, i64)> {
    if exists|j: int| is_first_row(h, key, j) {
        let j = choose|j: int| is_first_row(h, key, j);
        h.update(j, (key, (h[j].1 + 1) as i64))
    } else {
        h.push((key, 1i64))
    }
}

/// Counting `key` once more cannot overflow its row.
pub open spec fn can_count(h: Seq<(Seq<char>, i64)>, key: Seq<char>) -> bool {
    forall|j: int| is_first_row(h, key, j) ==> h[j].1 < i64::MAX
}

/// Whether counting `key` once more fits its row.
pub fn can_count_exec(h: &Vec<(String, i64)>, key: &str) -> (r: bool)
    ensures
        r == can_count(table_view(h@), key@),
{
    let ghost v = table_view(h@);
    let mut i: usize = 0;
    while i < h.len()
        invariant
            i <= h@.len(),
            v == table_view(h@),
            forall|k: int| 0 <= k < i ==> #[trigger] h@[k].0@ != key@,
        decreases h@.len() - i,
    {
        if str_eq(h[i].0.as_str(), key) {
            proof {
                assert(is_first_row(v, key@, i as int));
                assert forall|j: int| is_first_row(v, key@, j) implies j == i by {
                    if j < i {
                        assert(v[j].0 == h@[j].0@);
                    } else if j > i {
                        assert(v[i as int].0 == key@);
                    }
                }
            }
            return h[i].1 < i64::MAX;
        }
        i = i + 1;
    }
    proof {
        assert forall|j: int| !is_first_row(v, key@, j) by {
            if 0 <= j < v.len() {
                assert(v[j].0 == h@[j].0@);
            }
        }
    }
    true
}

/// A copy of a frequency table.
pub fn copy_table(h: &Vec<(String, i64)>) -> (r: Vec<(String, i64)>)
    ensures
        table_view(r@) == table_view(h@),
{
    let mut r: Vec<(String, i64)> = Vec::new();
    let mut i: usize = 0;
    while i < h.len()
        invariant
            i <= h@.len(),
            r@.len() == i,
            forall|k: int| 0 <= k < i ==> #[trigger] r@[k].0@ == h@[k].0@ && r@[k].1 == h@[k].1,
        decreases h@.len() - i,
    {
        let key = h[i].0.clone();
        r.push((key, h[i].1));
        i = i + 1;
    }
    assert(table_view(r@) =~= table_view(h@));
    r
}

pub fn set_user_hist_config(hist: &mut Vec<(String, i64)>, value: String) -> (r: Vec<(String, i64)>)
    requires
        can_count(table_view(old(hist)@), value@),
    ensures
        table_view(final(hist)@) == table_after_count(table_view(old(hist)@), value@),
        table_view(r@) == table_view(final(hist)@),
{
    let ghost old_view = table_view(hist@);
    let mut i: usize = 0;
    while i < hist.len()
        invariant
            i <= hist@.len(),
            hist@ == old(hist)@,
            old_view == table_view(old(hist)@),
            can_count(old_view, value@),
            forall|k: int| 0 <= k < i ==> #[trigger] hist@[k].0@ != value@,
        decreases hist@.len() - i,
    {
        if hist[i].0 == value {
            let key = hist[i].0.clone();
            let count = hist[i].1;
            proof {
                assert(is_first_row(old_view, value@, i as int));
                assert(old_view[i as int].1 == count);
            }
            hist.set(i, (key, count + 1));
            proof {
                let j = choose|j: int| is_first_row(old_view, value@, j);
                assert(j == i) by {
                    if j < i {
                        assert(old_view[j].0 == hist@[j].0@);
                    } else if j > i {
                        assert(old_view[i as int].0 == value@);
                    }
                }
                assert(table_view(hist@) =~= table_after_count(old_view, value@));
            }
            return copy_table(hist);
        }
        i = i + 1;
    }
    proof {
        assert forall|j: int| !is_first_row(old_view, value@, j) by {
            if 0 <= j < old_view.len() {
                assert(old_view[j].0 == hist@[j].0@);
            }
        }
    }
    hist.push((value, 1));
    assert(table_view(hist@) =~= table_after_count(old_view, value@));
    copy_table(hist)
}

/// Ordering the table by count, highest first, rows of equal count keeping
/// their order in the table: row `i` comes before row `j`.
pub open spec fn ranks_before(h: Seq<(Seq<char>, i64)>, i: int, j: int) -> bool {
    h[i].1 > h[j].1 || (h[i].1 == h[j].1 && i < j)
}

/// `idx` lists, best first, the leading rows of that ordering: each listed
/// row comes before every later listed row and before every unlisted row.
pub open spec fn is_top_rows(h: Seq<(Seq<char>, i64)>, idx: Seq<int>) -> bool {
    &&& forall|k: int| 0 <= k < idx.len() ==> 0 <= #[trigger] idx[k] < h.len()
    &&& forall|k: int, l: int| 0 <= k < l < idx.len() ==> ranks_before(h, #[trigger] idx[k], #[trigger] idx[l])
    &&& forall|k: int, j: int|
        #![trigger idx[k], idx.contains(j)]
        0 <= k < idx.len() && 0 <= j < h.len() && !idx.contains(j) ==> ranks_before(h, idx[k], j)
}

/// The leading rows of the ordering are determined by how many are taken.
pub proof fn lemma_top_rows_unique(h: Seq<(Seq<char>, i64)>, a: Seq<int>, b: Seq<int>)
    requires
        is_top_rows(h, a),
        is_top_rows(h, b),
        a.len() == b.len(),
    ensures
        a == b,
{
    if a != b {
        let k = choose|k: int| 0 <= k < a.len() && a[k] != b[k];
        assert(exists|k: int| 0 <= k < a.len() && a[k] != b[k]) by {
            if forall|k: int| 0 <= k < a.len() ==> a[k] == b[k] {
                assert(a =~= b);
            }
        }
        let k = choose|k: int| 0 <= k < a.len() && a[k] != b[k] && forall|l: int| 0 <= l < k ==> a[l] == b[l];
        assert(exists|k: int| 0 <= k < a.len() && a[k] != b[k] && forall|l: int| 0 <= l < k ==> a[l] == b[l]) by {
            lemma_first_difference(a, b, a.len() as int);
        }
        // a[k] comes before b[k]
        assert(ranks_before(h, a[k], b[k])) by {
            if a.contains(b[k]) {
                let p = choose|p: int| 0 <= p < a.len() && a[p] == b[k];
                if p < k {
                    assert(b[p] == a[p]);
                    assert(ranks_before(h, b[p], b[k]));
                } else if p > k {
                    assert(ranks_before(h, a[k], a[p]));
                }
            }
        }
        assert(ranks_before(h, b[k], a[k])) by {
            if b.contains(a[k]) {
                let p = choose|p: int| 0 <= p < b.len() && b[p] == a[k];
                if p < k {
                    assert(b[p] == a[p]);
                    assert(ranks_before(h, a[p], a[k]));
                } else if p > k {
                    assert(ranks_before(h, b[k], b[p]));
                }
            }
        }
    }
}

proof fn lemma_first_difference(a: Seq<int>, b: Seq<int>, n: int)
    requires
        0 <= n <= a.len(),
        a.len() == b.len(),
        exists|k: int| 0 <= k < n && a[k] != b[k],
    ensures
        exists|k: int| 0 <= k < a.len() && a[k] != b[k] && forall|l: int| 0 <= l < k ==> a[l] == b[l],
    decreases n,
{
    if forall|l: int| 0 <= l < n - 1 ==> a[l] == b[l] {
        assert(a[n - 1] != b[n - 1]);
    } else {
        lemma_first_difference(a, b, n - 1);
    }
}

proof fn lemma_free_row(sel: Seq<int>, n: int)
    requires
        sel.len() < n,
        sel.len() <= 2,
    ensures
        exists|j: int| 0 <= j < n && !sel.contains(j),
{
    if sel.contains(0) && sel.contains(1) && (n < 3 || sel.contains(2)) {
        let p0 = choose|p: int| 0 <= p < sel.len() && sel[p] == 0;
        let p1 = choose|p: int| 0 <= p < sel.len() && sel[p] == 1;
        if n >= 3 {
            let p2 = choose|p: int| 0 <= p < sel.len() && sel[p] == 2;
            assert(false);
        } else {
            assert(false);
        }
    }
    if !sel.contains(0) {
        assert(0 <= 0 < n && !sel.contains(0));
    } else if !sel.contains(1) {
        assert(0 <= 1 < n && !sel.contains(1));
    } else {
        assert(0 <= 2 < n && !sel.contains(2));
    }
}

/// The keys of the (at most) three highest-counted rows of a table, best
/// first, rows of equal count in table order.
pub open spec fn top_three(h: Seq<(Seq<char>, i64)>) -> Seq<Seq<char>> {
    let m = if h.len() < 3 { h.len() as int } else { 3 };
    let idx = choose|idx: Seq<int>| is_top_rows(h, idx) && idx.len() == m;
    idx.map_values(|i: int| h[i].0)
}

/// Texts of a list of strings.
pub open spec fn texts(v: Seq<String>) -> Seq<Seq<char>> {
    v.map_values(|s: String| s@)
}

pub fn get_user_path_by_three(hist: Vec<(String, i64)>) -> (r: Vec<String>)
    ensures
        texts(r@) == top_three(table_view(hist@)),
{
    let ghost h = table_view(hist@);
    let n = hist.len();
    let m: usize = if n < 3 { n } else { 3 };
    let mut sel: Vec<usize> = Vec::new();
    let mut names: Vec<String> = Vec::new();
    let ghost mut idx: Seq<int> = Seq::empty();
    while sel.len() < m
        invariant
            h == table_view(hist@),
            n == hist@.len(),
            m == if n < 3 { n } else { 3 },
            sel@.len() <= m,
            idx.len() == sel@.len(),
            names@.len() == sel@.len(),
            forall|k: int| 0 <= k < idx.len() ==> #[trigger] idx[k] == sel@[k] as int,
            forall|k: int| 0 <= k < idx.len() ==> #[trigger] names@[k]@ == h[idx[k]].0,
            is_top_rows(h, idx),
        decreases m - sel@.len(),
    {
        proof {
            lemma_free_row(idx, n as int);
        }
        let mut best: usize = n;
        let mut j: usize = 0;
        while j < n
            invariant
                h == table_view(hist@),
                n == hist@.len(),
                j <= n,
                best <= n,
                idx.len() == sel@.len(),
                forall|k: int| 0 <= k < idx.len() ==> #[trigger] idx[k] == sel@[k] as int,
                best == n ==> forall|l: int| 0 <= l < j ==> idx.contains(l),
                best < n ==> best < j && !idx.contains(best as int) && forall|l: int|
                    0 <= l < j && !idx.contains(l) && l != best ==> ranks_before(h, best as int, l),
            decreases n - j,
        {
            let mut taken = false;
            let mut t: usize = 0;
            while t < sel.len()
                invariant
                    t <= sel@.len(),
                    idx.len() == sel@.len(),
                    forall|k: int| 0 <= k < idx.len() ==> #[trigger] idx[k] == sel@[k] as int,
                    taken == exists|k: int| 0 <= k < t && idx[k] == j as int,
                decreases sel@.len() - t,
            {
                if sel[t] == j {
                    taken = true;
                    assert(idx[t as int] == j as int);
                }
                t = t + 1;
            }
            assert(taken == idx.contains(j as int));
            if !taken {
                if best == n || hist[j].1 > hist[best].1 {
                    best = j;
                }
            }
            proof {
                assert(h[j as int].1 == hist@[j as int].1);
                if best < n {
                    assert(h[best as int].1 == hist@[best as int].1);
                }
            }
            j = j + 1;
        }
        proof {
            let free = choose|l: int| 0 <= l < n && !idx.contains(l);
            assert(best < n);
        }
        let name = hist[best].0.clone();
        proof {
            let old_idx = idx;
            idx = idx.push(best as int);
            assert forall|k: int, l: int| 0 <= k < idx.len() && 0 <= l < h.len() && !idx.contains(l)
                implies #[trigger] ranks_before(h, idx[k], l) by {
                if k < old_idx.len() {
                    assert(old_idx[k] == idx[k]);
                    assert(!old_idx.contains(l)) by {
                        if old_idx.contains(l) {
                            let p = choose|p: int| 0 <= p < old_idx.len() && old_idx[p] == l;
                            assert(idx[p] == l);
                        }
                    }
                } else {
                    assert(idx[old_idx.len() as int] == best as int);
                    assert(l != best);
                    assert(!old_idx.contains(l)) by {
                        if old_idx.contains(l) {
                            let p = choose|p: int| 0 <= p < old_idx.len() && old_idx[p] == l;
                            assert(idx[p] == l);
                        }
                    }
                }
            }
            assert forall|k: int, l: int| 0 <= k < l < idx.len() implies ranks_before(h, #[trigger] idx[k], #[trigger] idx[l]) by {
                if l < old_idx.len() {
                    assert(old_idx[k] == idx[k] && old_idx[l] == idx[l]);
                } else {
                    assert(old_idx[k] == idx[k]);
                    assert(!old_idx.contains(best as int));
                }
            }
        }
        sel.push(best);
        names.push(name);
    }
    proof {
        let m_spec = if h.len() < 3 { h.len() as int } else { 3 };
        let c = choose|c: Seq<int>| is_top_rows(h, c) && c.len() == m_spec;
        assert(is_top_rows(h, idx) && idx.len() == m_spec);
        lemma_top_rows_unique(h, c, idx);
        assert(texts(names@) =~= top_three(h));
    }
    names
}

/// The device model recorded for a user agent. The extractor is built
/// without device parsers, so it recognises no device: the model is always
/// `"unknown"`.
pub open spec fn device_model(ua: Seq<char>) -> Option<Seq<char>> {
    Some("unknown"@)
}

pub fn extract_device_model(ua: &str) -> (r: Option<String>)
    ensures
        r is Some <==> device_model(ua@) is Some,
        r matches Some(m) ==> m@ == device_model(ua@)->0,
{
    match ua_extract_device(ua) {
        None => None,
        Some(None) => Some(String::from_str("unknown")),
        Some(Some(family)) => Some(family),
    }
}

/// The key under which a user agent's device is counted.
pub open spec fn device_key(ua: Seq<char>) -> Seq<char> {
    match device_model(ua) {
        Some(m) => m,
        None => "unknown"@,
    }
}

/// The key under which a user agent's device is counted.
pub fn device_hist_key(ua: &str) -> (r: String)
    ensures
        r@ == device_key(ua@),
{
    match extract_device_model(ua) {
        Some(m) => m,
        None => String::from_str("unknown"),
    }
}

pub fn set_user_device_hist(hist: &mut Vec<(String, i64)>, ua: String) -> (r: Vec<(String, i64)>)
    requires
        can_count(table_view(old(hist)@), device_key(ua@)),
    ensures
        table_view(final(hist)@) == table_after_count(table_view(old(hist)@), device_key(ua@)),
        table_view(r@) == table_view(final(hist)@),
{
    let device_model = device_hist_key(ua.as_str());
    set_user_hist_config(hist, device_model)
}

/// The key under which a platform is counted: the OS name with the browser
/// version that identifies it on that OS.
pub open spec fn platform_key(os: Seq<char>, chrome: Seq<char>, safari: Seq<char>) -> Seq<char> {
    if os == "PC"@ {
        "PC_"@ + chrome
    } else if os == "IOS"@ {
        "IOS_"@ + safari
    } else if os == "Android"@ {
        "Android_"@ + safari
    } else {
        "Other_"@ + chrome + "_"@ + safari
    }
}

pub fn set_user_platform_hist(hist: &mut Vec<(String, i64)>, platform_info: (String, String, String)) -> (r: Vec<(String, i64)>)
    requires
        can_count(table_view(old(hist)@), platform_key(platform_info.0@, platform_info.1@, platform_info.2@)),
    ensures
        table_view(final(hist)@) == table_after_count(
            table_view(old(hist)@),
            platform_key(platform_info.0@, platform_info.1@, platform_info.2@),
        ),
        table_view(r@) == table_view(final(hist)@),
{
    let hist_key = platform_hist_key(&platform_info);
    set_user_hist_config(hist, hist_key)
}

/// The key under which a platform (OS name, Chrome version, Safari version)
/// is counted.
pub fn platform_hist_key(platform_info: &(String, String, String)) -> (r: String)
    ensures
        r@ == platform_key(platform_info.0@, platform_info.1@, platform_info.2@),
{
    let os_name = &platform_info.0;
    let os_chrome_ver = &platform_info.1;
    let os_safari_ver = &platform_info.2;
    if str_eq(os_name.as_str(), "PC") {
        let mut k = String::from_str("PC_");
        k.append(os_chrome_ver.as_str());
        k
    } else if str_eq(os_name.as_str(), "IOS") {
        let mut k = String::from_str("IOS_");
        k.append(os_safari_ver.as_str());
        k
    } else if str_eq(os_name.as_str(), "Android") {
        let mut k = String::from_str("Android_");
        k.append(os_safari_ver.as_str());
        k
    } else {
        let mut k = String::from_str("Other_");
        k.append(os_chrome_ver.as_str());
        k.append("_");
        k.append(os_safari_ver.as_str());
        k
    }
}

/// A table that has just counted a key has at least one row, so its best
/// row exists.
pub proof fn lemma_table_after_count_nonempty(h: Seq<(Seq<char>, i64)>, key: Seq<char>)
    ensures
        table_after_count(h, key).len() >= 1,
        top_three(table_after_count(h, key)).len() >= 1,
{
    let t = table_after_count(h, key);
    let m = if t.len() < 3 { t.len() as int } else { 3 };
    lemma_top_rows_exist(t, m);
}

/// The leading rows of the ordering exist for every count up to the table's
/// length (and up to three).
pub proof fn lemma_top_rows_exist(h: Seq<(Seq<char>, i64)>, m: int)
    requires
        0 <= m <= h.len(),
        m <= 3,
    ensures
        exists|idx: Seq<int>| is_top_rows(h, idx) && idx.len() == m,
    decreases m,
{
    if m == 0 {
        let e = Seq::<int>::empty();
        assert(is_top_rows(h, e));
        assert(is_top_rows(h, e) && e.len() == m);
    } else {
        lemma_top_rows_exist(h, m - 1);
        let prev = choose|idx: Seq<int>| is_top_rows(h, idx) && idx.len() == m - 1;
        // the best unlisted row
        assert(exists|b: int| 0 <= b < h.len() && !prev.contains(b) && forall|l: int|
            0 <= l < h.len() && !prev.contains(l) && l != b ==> ranks_before(h, b, l)) by {
            lemma_free_row(prev, h.len() as int);
            lemma_best_unlisted(h, prev, h.len() as int);
        }
        let best = choose|b: int| 0 <= b < h.len() && !prev.contains(b) && forall|l: int|
            0 <= l < h.len() && !prev.contains(l) && l != b ==> ranks_before(h, b, l);
        let idx = prev.push(best);
        assert(idx[m - 1] == best);
        assert forall|k: int, l: int| 0 <= k < idx.len() && 0 <= l < h.len() && !idx.contains(l)
            implies #[trigger] ranks_before(h, idx[k], l) by {
            assert(!prev.contains(l)) by {
                if prev.contains(l) {
                    let p = choose|p: int| 0 <= p < prev.len() && prev[p] == l;
                    assert(idx[p] == l);
                }
            }
            if k < prev.len() {
                assert(prev[k] == idx[k]);
            }
        }
        assert forall|k: int, l: int| 0 <= k < l < idx.len() implies ranks_before(h, #[trigger] idx[k], #[trigger] idx[l]) by {
            if l < prev.len() {
                assert(prev[k] == idx[k] && prev[l] == idx[l]);
            } else {
                assert(prev[k] == idx[k]);
            }
        }
        assert(is_top_rows(h, idx));
        assert(idx.len() == m);
        assert(is_top_rows(h, idx) && idx.len() == m);
    }
}

/// Among the rows not yet listed, when fewer rows are listed than `n`, one
/// comes before all the others.
proof fn lemma_best_unlisted(h: Seq<(Seq<char>, i64)>, prev: Seq<int>, n: int)
    requires
        0 <= n <= h.len(),
        exists|j: int| 0 <= j < n && !prev.contains(j),
    ensures
        exists|b: int| 0 <= b < n && !prev.contains(b) && forall|l: int|
            0 <= l < n && !prev.contains(l) && l != b ==> ranks_before(h, b, l),
    decreases n,
{
    if prev.contains(n - 1) {
        let j = choose|j: int| 0 <= j < n && !prev.contains(j);
        assert(j != n - 1);
        assert(0 <= j < n - 1 && !prev.contains(j));
        lemma_best_unlisted(h, prev, n - 1);
        let b = choose|b: int| 0 <= b < n - 1 && !prev.contains(b) && forall|l: int|
            0 <= l < n - 1 && !prev.contains(l) && l != b ==> ranks_before(h, b, l);
        assert forall|l: int| 0 <= l < n && !prev.contains(l) && l != b implies ranks_before(h, b, l) by {
            assert(l != n - 1);
        }
    } else if !(exists|j: int| 0 <= j < n - 1 && !prev.contains(j)) {
        assert forall|l: int| 0 <= l < n && !prev.contains(l) && l != n - 1 implies ranks_before(h, n - 1, l) by {
            assert(0 <= l < n - 1);
        }
    } else {
        lemma_best_unlisted(h, prev, n - 1);
        let b = choose|b: int| 0 <= b < n - 1 && !prev.contains(b) && forall|l: int|
            0 <= l < n - 1 && !prev.contains(l) && l != b ==> ranks_before(h, b, l);
        if h[n - 1].1 > h[b].1 {
            assert forall|l: int| 0 <= l < n && !prev.contains(l) && l != n - 1 implies ranks_before(h, n - 1, l) by {
                assert(ranks_before(h, b, l) || l == b);
            }
        } else {
            assert forall|l: int| 0 <= l < n && !prev.contains(l) && l != b implies ranks_before(h, b, l) by {
                if l == n - 1 {
                    assert(b < n - 1);
                }
            }
        }
    }
}

/// Sum of all the counts of a histogram.
pub open spec fn histogram_total(h: Seq<(i64, i64)>) -> int {
    count_sum_from(h, i64::MIN)
}

/// Raising one bucket by one, its label unchanged, raises the sum of the
/// buckets at or after `from` by one when the bucket's label counts.
proof fn lemma_count_sum_bump(h: Seq<(i64, i64)>, i: int, from: i64)
    requires
        0 <= i < h.len(),
        h[i].1 < i64::MAX,
    ensures
        count_sum_from(h.update(i, (h[i].0, (h[i].1 + 1) as i64)), from) == count_sum_from(h, from) + if h[i].0
            >= from {
            1int
        } else {
            0int
        },
    decreases h.len(),
{
    let u = h.update(i, (h[i].0, (h[i].1 + 1) as i64));
    if i == h.len() - 1 {
        assert(u.drop_last() =~= h.drop_last());
    } else {
        assert(u.drop_last() =~= h.drop_last().update(i, (h[i].0, (h[i].1 + 1) as i64)));
        lemma_count_sum_bump(h.drop_last(), i, from);
    }
}

/// Counting an event keeps the histogram's shape (24 buckets, bucket `i`
/// labelled `i`), and the event is counted exactly once: in the bucket of
/// its hour, which the total grows by one. An unrepresentable timestamp
/// leaves the histogram as it was.
pub proof fn lemma_event_counted_once(h: Seq<(i64, i64)>, timestamp_ms: i64)
    requires
        is_hour_histogram(h),
        can_count_event(h, timestamp_ms),
    ensures
        is_hour_histogram(histogram_after_event(h, timestamp_ms)),
        utc_millis_representable(timestamp_ms) ==> {
            let hour = hour_of_millis(timestamp_ms as int);
            &&& 0 <= hour < 24
            &&& histogram_after_event(h, timestamp_ms)[hour].1 == h[hour].1 + 1
            &&& forall|i: int| 0 <= i < 24 && i != hour ==> #[trigger] histogram_after_event(h, timestamp_ms)[i] == h[i]
            &&& histogram_total(histogram_after_event(h, timestamp_ms)) == histogram_total(h) + 1
        },
        !utc_millis_representable(timestamp_ms) ==> histogram_after_event(h, timestamp_ms) == h,
{
    if utc_millis_representable(timestamp_ms) {
        let hour = hour_of_millis(timestamp_ms as int);
        let secs = timestamp_ms as int / 1000;
        assert(0 <= secs % 86400 < 86400);
        assert(0 <= hour < 24);
        assert(hour % 24 == hour);
        assert(h[hour].0 == hour);
        let after = histogram_after_event(h, timestamp_ms);
        assert(after == h.update(hour, (h[hour].0, (h[hour].1 + 1) as i64)));
        lemma_count_sum_bump(h, hour, i64::MIN);
        assert forall|i: int| 0 <= i < 24 implies #[trigger] after[i].0 == i by {
            if i != hour {
                assert(after[i] == h[i]);
            }
        }
    }
}

/// The count a table holds for a key: that of its first row with the key, or
/// 0 when no row has it.
pub open spec fn count_of(h: Seq<(Seq<char>, i64)>, key: Seq<char>) -> int {
    if exists|j: int| is_first_row(h, key, j) {
        h[choose|j: int| is_first_row(h, key, j)].1 as int
    } else {
        0
    }
}

/// No two rows of the table have the same key.
pub open spec fn keys_distinct(h: Seq<(Seq<char>, i64)>) -> bool {
    forall|i: int, j: int| 0 <= i < j < h.len() ==> #[trigger] h[i].0 != #[trigger] h[j].0
}

proof fn lemma_first_row_unique(h: Seq<(Seq<char>, i64)>, key: Seq<char>, a: int, b: int)
    requires
        is_first_row(h, key, a),
        is_first_row(h, key, b),
    ensures
        a == b,
{
    if a < b {
        assert(h[a].0 != key);
    } else if b < a {
        assert(h[b].0 != key);
    }
}

/// The first row of `key` in `t` is `j`, and `count_of` reads it.
proof fn lemma_count_of_at(t: Seq<(Seq<char>, i64)>, key: Seq<char>, j: int)
    requires
        is_first_row(t, key, j),
    ensures
        count_of(t, key) == t[j].1,
{
    let c = choose|c: int| is_first_row(t, key, c);
    lemma_first_row_unique(t, key, c, j);
}

/// Counting a key once more raises what the table holds for that key by one
/// and leaves what it holds for every other key as it was; a table whose keys
/// are distinct keeps them distinct, and gains a row only for a new key.
pub proof fn lemma_count_key_once(h: Seq<(Seq<char>, i64)>, key: Seq<char>)
    requires
        can_count(h, key),
    ensures
        count_of(table_after_count(h, key), key) == count_of(h, key) + 1,
        forall|other: Seq<char>| other != key ==> #[trigger] count_of(table_after_count(h, key), other) == count_of(h, other),
        keys_distinct(h) ==> keys_distinct(table_after_count(h, key)),
        table_after_count(h, key).len() == h.len() + if exists|j: int| is_first_row(h, key, j) {
            0int
        } else {
            1int
        },
{
    let t = table_after_count(h, key);
    if exists|j: int| is_first_row(h, key, j) {
        let j = choose|j: int| is_first_row(h, key, j);
        assert(t == h.update(j, (key, (h[j].1 + 1) as i64)));
        assert(h[j].1 < i64::MAX);
        assert(is_first_row(t, key, j));
        lemma_count_of_at(t, key, j);
        lemma_count_of_at(h, key, j);
        assert forall|other: Seq<char>| other != key implies #[trigger] count_of(t, other) == count_of(h, other) by {
            if exists|a: int| is_first_row(h, other, a) {
                let a = choose|a: int| is_first_row(h, other, a);
                assert(a != j);
                assert(is_first_row(t, other, a));
                lemma_count_of_at(t, other, a);
                lemma_count_of_at(h, other, a);
            } else {
                assert forall|a: int| !is_first_row(t, other, a) by {
                    if is_first_row(t, other, a) {
                        assert(a != j);
                        assert forall|k: int| 0 <= k < a implies #[trigger] h[k].0 != other by {
                            if k != j {
                                assert(h[k] == t[k]);
                            }
                        }
                        assert(is_first_row(h, other, a));
                    }
                }
            }
        }
        if keys_distinct(h) {
            assert forall|a: int, b: int| 0 <= a < b < t.len() implies #[trigger] t[a].0 != #[trigger] t[b].0 by {
                assert(h[a].0 != h[b].0);
            }
        }
    } else {
        assert(t == h.push((key, 1i64)));
        assert(is_first_row(t, key, h.len() as int)) by {
            assert forall|k: int| 0 <= k < h.len() implies #[trigger] t[k].0 != key by {
                if t[k].0 == key {
                    assert(t[k] == h[k]);
                    let k0 = lemma_some_first_row(h, key, k);
                }
            }
        }
        lemma_count_of_at(t, key, h.len() as int);
        assert forall|other: Seq<char>| other != key implies #[trigger] count_of(t, other) == count_of(h, other) by {
            if exists|a: int| is_first_row(h, other, a) {
                let a = choose|a: int| is_first_row(h, other, a);
                assert(is_first_row(t, other, a));
                lemma_count_of_at(t, other, a);
                lemma_count_of_at(h, other, a);
            } else {
                assert forall|a: int| !is_first_row(t, other, a) by {
                    if is_first_row(t, other, a) {
                        assert(a != h.len());
                        assert forall|k: int| 0 <= k < a implies #[trigger] h[k].0 != other by {
                            assert(h[k] == t[k]);
                        }
                        assert(is_first_row(h, other, a));
                    }
                }
            }
        }
        if keys_distinct(h) {
            assert forall|a: int, b: int| 0 <= a < b < t.len() implies #[trigger] t[a].0 != #[trigger] t[b].0 by {
                if b == h.len() {
                    if t[a].0 == key {
                        let k0 = lemma_some_first_row(h, key, a);
                    }
                } else {
                    assert(h[a].0 != h[b].0);
                }
            }
        }
    }
}

/// A row holding `key` means a first row of `key` exists.
proof fn lemma_some_first_row(h: Seq<(Seq<char>, i64)>, key: Seq<char>, k: int) -> (f: int)
    requires
        0 <= k < h.len(),
        h[k].0 == key,
    ensures
        is_first_row(h, key, f),
    decreases k,
{
    if forall|l: int| 0 <= l < k ==> #[trigger] h[l].0 != key {
        k
    } else {
        let l = choose|l: int| 0 <= l < k && h[l].0 == key;
        lemma_some_first_row(h, key, l)
    }
}

/// The top entries of a table are as many of its rows' keys as it has rows,
/// up to three.
pub proof fn lemma_top_three_len(h: Seq<(Seq<char>, i64)>)
    ensures
        top_three(h).len() == if h.len() < 3 { h.len() as int } else { 3 },
        forall|k: int| 0 <= k < top_three(h).len() ==> table_keys(h).contains(#[trigger] top_three(h)[k]),
{
    let m = if h.len() < 3 { h.len() as int } else { 3 };
    lemma_top_rows_exist(h, m);
    let idx = choose|idx: Seq<int>| is_top_rows(h, idx) && idx.len() == m;
    assert forall|k: int| 0 <= k < top_three(h).len() implies table_keys(h).contains(#[trigger] top_three(h)[k]) by {
        let j = idx[k];
        assert(0 <= j < h.len());
        assert(top_three(h)[k] == h[j].0);
        assert(table_keys(h)[j] == h[j].0);
    }
}

/// The keys of a table's rows, in order.
pub open spec fn table_keys(h: Seq<(Seq<char>, i64)>) -> Seq<Seq<char>> {
    h.map_values(|p: (Seq<char>, i64)| p.0)
}

} // verus!
