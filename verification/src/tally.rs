//! Counting tables keyed by text: distinct keys in order of first
//! appearance, each with the number of times it occurs.
use vstd::prelude::*;

verus! {

/// The distinct texts of `s`, in order of first appearance.
pub open spec fn distinct(s: Seq<Seq<char>>) -> Seq<Seq<char>>
    decreases s.len(),
{
    if s.len() == 0 {
        Seq::empty()
    } else {
        let d = distinct(s.drop_last());
        if d.contains(s.last()) {
            d
        } else {
            d.push(s.last())
        }
    }
}

/// How many times `k` occurs in `s`.
pub open spec fn occurrences(s: Seq<Seq<char>>, k: Seq<char>) -> nat
    decreases s.len(),
{
    if s.len() == 0 {
        0
    } else {
        occurrences(s.drop_last(), k) + if s.last() == k {
            1nat
        } else {
            0nat
        }
    }
}

/// The counting table of `s`: one row per distinct text, in order of first
/// appearance, with its number of occurrences.
pub open spec fn tally_of(s: Seq<Seq<char>>) -> Seq<(Seq<char>, nat)> {
    let d = distinct(s);
    Seq::new(d.len(), |i: int| (d[i], occurrences(s, d[i])))
}

/// A counting table read as (key text, count) pairs.
pub open spec fn tally_view(t: Seq<(String, usize)>) -> Seq<(Seq<char>, nat)> {
    t.map_values(|p: (String, usize)| (p.0@, p.1 as nat))
}

/// A text is among the distinct texts exactly when it occurs.
pub proof fn lemma_distinct_contains(s: Seq<Seq<char>>, k: Seq<char>)
    ensures
        distinct(s).contains(k) <==> s.contains(k),
    decreases s.len(),
{
    if s.len() > 0 {
        lemma_distinct_contains(s.drop_last(), k);
        let d = distinct(s.drop_last());
        if s.drop_last().contains(k) {
            let i = choose|i: int| 0 <= i < s.drop_last().len() && s.drop_last()[i] == k;
            assert(s[i] == k);
        }
        if s.contains(k) && k != s.last() {
            let i = choose|i: int| 0 <= i < s.len() && s[i] == k;
            assert(s.drop_last()[i] == k);
        }
        if !d.contains(s.last()) {
            assert(d.push(s.last())[d.len() as int] == s.last());
            if d.contains(k) {
                let i = choose|i: int| 0 <= i < d.len() && d[i] == k;
                assert(d.push(s.last())[i] == k);
            }
            if d.push(s.last()).contains(k) && k != s.last() {
                let i = choose|i: int| 0 <= i < d.len() + 1 && d.push(s.last())[i] == k;
                assert(d[i] == k);
            }
        }
        assert(s[s.len() - 1] == s.last());
    }
}

/// The distinct texts hold no text twice.
pub proof fn lemma_distinct_no_duplicates(s: Seq<Seq<char>>)
    ensures
        distinct(s).no_duplicates(),
    decreases s.len(),
{
    if s.len() > 0 {
        lemma_distinct_no_duplicates(s.drop_last());
    }
}

/// A text occurs at most as often as the sequence is long, and not at all
/// when it is absent.
pub proof fn lemma_occurrences_bounds(s: Seq<Seq<char>>, k: Seq<char>)
    ensures
        occurrences(s, k) <= s.len(),
        !s.contains(k) ==> occurrences(s, k) == 0,
        s.contains(k) ==> occurrences(s, k) >= 1,
    decreases s.len(),
{
    if s.len() > 0 {
        lemma_occurrences_bounds(s.drop_last(), k);
        if !s.contains(k) {
            assert(!s.drop_last().contains(k)) by {
                if s.drop_last().contains(k) {
                    let i = choose|i: int| 0 <= i < s.drop_last().len() && s.drop_last()[i] == k;
                    assert(s[i] == k);
                }
            }
            assert(s[s.len() - 1] != k);
        }
        if s.contains(k) && s.last() != k {
            let i = choose|i: int| 0 <= i < s.len() && s[i] == k;
            assert(s.drop_last()[i] == k);
        }
    }
}

/// The sum of the counts of a table.
pub open spec fn count_total(t: Seq<(Seq<char>, nat)>) -> nat
    decreases t.len(),
{
    if t.len() == 0 {
        0
    } else {
        count_total(t.drop_last()) + t.last().1
    }
}

/// Appending a text to what was counted bumps the row of that text, or adds
/// a row `(text, 1)` after the others.
pub proof fn lemma_tally_push(s: Seq<Seq<char>>, k: Seq<char>)
    ensures
        distinct(s).contains(k) ==> distinct(s.push(k)) == distinct(s),
        !distinct(s).contains(k) ==> distinct(s.push(k)) == distinct(s).push(k),
        occurrences(s.push(k), k) == occurrences(s, k) + 1,
        forall|j: Seq<char>| j != k ==> #[trigger] occurrences(s.push(k), j) == occurrences(s, j),
{
    assert(s.push(k).drop_last() =~= s);
    assert(s.push(k).last() == k);
}

/// Adds one occurrence of `key` to a counting table.
pub(crate) fn tally_add(t: &mut Vec<(String, usize)>, Ghost(s): Ghost<Seq<Seq<char>>>, key: &String)
    requires
        tally_view(old(t)@) == tally_of(s),
        s.len() < usize::MAX,
    ensures
        tally_view(final(t)@) == tally_of(s.push(key@)),
{
    proof {
        lemma_tally_push(s, key@);
        lemma_distinct_no_duplicates(s);
    }
    let ghost d = distinct(s);
    assert(tally_view(t@).len() == t@.len());
    assert(t@.len() == d.len());
    let mut i: usize = 0;
    while i < t.len()
        invariant
            i <= t@.len(),
            t@ == old(t)@,
            tally_view(t@) == tally_of(s),
            d == distinct(s),
            t@.len() == d.len(),
            d.no_duplicates(),
            s.len() < usize::MAX,
            forall|j: int| 0 <= j < i ==> #[trigger] d[j] != key@,
        decreases t@.len() - i,
    {
        assert(tally_view(t@)[i as int] == tally_of(s)[i as int]);
        if t[i].0 == *key {
            let name = t[i].0.clone();
            let count = t[i].1;
            proof {
                lemma_tally_push(s, key@);
                lemma_occurrences_bounds(s, key@);
                assert(d[i as int] == key@);
                assert(d.contains(key@));
            }
            t.set(i, (name, count + 1));
            proof {
                assert forall|j: int| 0 <= j < d.len() implies #[trigger] tally_view(t@)[j] == tally_of(s.push(key@))[j] by {
                    assert(distinct(s.push(key@)) == d);
                    if j != i {
                        assert(d[j] != d[i as int]);
                        assert(tally_view(old(t)@)[j] == tally_of(s)[j]);
                    } else {
                        assert(tally_view(old(t)@)[j] == tally_of(s)[j]);
                        assert(count == occurrences(s, key@));
                        assert(tally_view(t@)[j] == (key@, (count + 1) as nat));
                    }
                }
                assert(tally_view(t@).len() == tally_of(s.push(key@)).len());
                assert(tally_view(t@) =~= tally_of(s.push(key@)));
            }
            return;
        }
        i = i + 1;
    }
    proof {
        assert(!d.contains(key@)) by {
            if d.contains(key@) {
                let j = choose|j: int| 0 <= j < d.len() && d[j] == key@;
                assert(tally_view(t@)[j] == tally_of(s)[j]);
            }
        }
        lemma_distinct_contains(s, key@);
        lemma_occurrences_bounds(s, key@);
    }
    t.push((key.clone(), 1));
    proof {
        let d2 = d.push(key@);
        assert forall|j: int| 0 <= j < d2.len() implies #[trigger] tally_view(t@)[j] == tally_of(s.push(key@))[j] by {
            if j < d.len() {
                assert(d[j] != key@);
                assert(tally_view(old(t)@)[j] == tally_of(s)[j]);
            }
        }
        assert(tally_view(t@) =~= tally_of(s.push(key@)));
    }
}

proof fn lemma_count_total_bump(t: Seq<(Seq<char>, nat)>, i: int)
    requires
        0 <= i < t.len(),
    ensures
        count_total(t.update(i, (t[i].0, t[i].1 + 1))) == count_total(t) + 1,
    decreases t.len(),
{
    let u = t.update(i, (t[i].0, t[i].1 + 1));
    if i == t.len() - 1 {
        assert(u.drop_last() =~= t.drop_last());
    } else {
        lemma_count_total_bump(t.drop_last(), i);
        assert(u.drop_last() =~= t.drop_last().update(i, (t[i].0, t[i].1 + 1)));
    }
}

/// The counts of a counting table add up to the number of texts counted.
pub proof fn lemma_tally_total(s: Seq<Seq<char>>)
    ensures
        count_total(tally_of(s)) == s.len(),
        tally_of(s).len() == distinct(s).len(),
        distinct(s).len() <= s.len(),
    decreases s.len(),
{
    if s.len() > 0 {
        let p = s.drop_last();
        let k = s.last();
        lemma_tally_total(p);
        lemma_tally_push(p, k);
        lemma_distinct_no_duplicates(p);
        assert(p.push(k) =~= s);
        let d = distinct(p);
        let t = tally_of(p);
        if d.contains(k) {
            let i = choose|i: int| 0 <= i < d.len() && d[i] == k;
            assert(tally_of(s) =~= t.update(i, (t[i].0, t[i].1 + 1))) by {
                assert forall|j: int| 0 <= j < d.len() implies #[trigger] tally_of(s)[j] == t.update(i, (t[i].0, t[i].1 + 1))[j] by {
                    if j != i {
                        assert(d[j] != d[i]);
                    }
                }
            }
            lemma_count_total_bump(t, i);
        } else {
            lemma_occurrences_bounds(p, k);
            lemma_distinct_contains(p, k);
            assert(tally_of(s).drop_last() =~= t) by {
                assert forall|j: int| 0 <= j < d.len() implies #[trigger] tally_of(s)[j] == t[j] by {
                    assert(d[j] != k) by {
                        if d[j] == k {
                            assert(d.contains(k));
                        }
                    }
                }
            }
            assert(tally_of(s).last() == (k, 1nat));
        }
    }
}

/// The count a table gives a key: the count of an entry with that key, 0
/// when no entry has it.
pub open spec fn count_for(t: Seq<(Seq<char>, nat)>, k: Seq<char>) -> nat {
    if exists|j: int| 0 <= j < t.len() && #[trigger] t[j].0 == k {
        t[choose|j: int| 0 <= j < t.len() && #[trigger] t[j].0 == k].1
    } else {
        0
    }
}

/// A counting table gives each key the number of times it occurs.
pub proof fn lemma_count_for_tally(s: Seq<Seq<char>>, k: Seq<char>)
    ensures
        count_for(tally_of(s), k) == occurrences(s, k),
{
    let t = tally_of(s);
    let d = distinct(s);
    lemma_distinct_contains(s, k);
    lemma_occurrences_bounds(s, k);
    if s.contains(k) {
        let j = choose|j: int| 0 <= j < d.len() && d[j] == k;
        assert(t[j].0 == k);
        let j2 = choose|j: int| 0 <= j < t.len() && #[trigger] t[j].0 == k;
        assert(d[j2] == k);
    } else {
        if exists|j: int| 0 <= j < t.len() && #[trigger] t[j].0 == k {
            let j = choose|j: int| 0 <= j < t.len() && #[trigger] t[j].0 == k;
            assert(d[j] == k);
            assert(d.contains(k));
        }
    }
}

} // verus!
