//! Search in the dictation history (newest first).
use vstd::prelude::*;
use crate::text::{chars_of, contains, contains_chars, lowercase, to_lowercase};

verus! {

/// The texts of one history entry that a search looks at.
pub struct HistoryText {
    pub raw: String,
    pub final_text: String,
}

/// An entry matches a lower-cased query when the query is empty or occurs in the
/// lower-cased final text or raw transcript.
pub open spec fn entry_matches(raw: Seq<char>, final_text: Seq<char>, q: Seq<char>) -> bool {
    entry_matches_lowered(lowercase(raw), lowercase(final_text), q)
}

/// [`entry_matches`] with the lower-cased raw and final texts given.
pub open spec fn entry_matches_lowered(lower_raw: Seq<char>, lower_final: Seq<char>, q: Seq<char>) -> bool {
    q.len() == 0 || contains(lower_final, q) || contains(lower_raw, q)
}

/// Indices of the matching entries at `k` or later, newest (highest index) first.
pub open spec fn newest_matches(es: Seq<HistoryText>, q: Seq<char>, k: int) -> Seq<int>
    decreases es.len() - k,
{
    if k < 0 || k >= es.len() {
        Seq::empty()
    } else if entry_matches(es[k].raw@, es[k].final_text@, q) {
        newest_matches(es, q, k + 1).push(k)
    } else {
        newest_matches(es, q, k + 1)
    }
}

proof fn lemma_newest_prefix(es: Seq<HistoryText>, q: Seq<char>, k: int, j: int)
    requires
        0 <= k <= j <= es.len(),
    ensures
        newest_matches(es, q, j).len() <= newest_matches(es, q, k).len(),
        newest_matches(es, q, j) == newest_matches(es, q, k).take(
            newest_matches(es, q, j).len() as int,
        ),
    decreases j - k,
{
    if k < j {
        lemma_newest_prefix(es, q, k + 1, j);
        let a = newest_matches(es, q, k + 1);
        let b = newest_matches(es, q, j);
        if entry_matches(es[k].raw@, es[k].final_text@, q) {
            assert(a.push(k).take(b.len() as int) =~= a.take(b.len() as int));
        }
    } else {
        assert(newest_matches(es, q, k).take(newest_matches(es, q, k).len() as int)
            =~= newest_matches(es, q, k));
    }
}

/// Whether an entry matches the lower-cased query `q`.
fn entry_hit(e: &HistoryText, q: &Vec<char>) -> (r: bool)
    ensures
        r == entry_matches(e.raw@, e.final_text@, q@),
{
    if q.len() == 0 {
        return true;
    }
    let f = to_lowercase(e.final_text.as_str());
    let r = to_lowercase(e.raw.as_str());
    entry_hit_lowered(r.as_str(), f.as_str(), q.as_slice())
}

/// Whether an entry, given its lower-cased raw and final texts, matches the
/// lower-cased query `q`.
pub fn entry_hit_lowered(lower_raw: &str, lower_final: &str, q: &[char]) -> (r: bool)
    ensures
        r == entry_matches_lowered(lower_raw@, lower_final@, q@),
{
    if q.len() == 0 {
        return true;
    }
    let fc = chars_of(lower_final);
    if contains_chars(fc.as_slice(), q) {
        return true;
    }
    let rc = chars_of(lower_raw);
    contains_chars(rc.as_slice(), q)
}

/// The history search: the indices of the entries (in file order) that match the
/// query, case-insensitively, newest first, at most `limit` of them (50 when not
/// given); an absent query matches everything.
pub fn select_history(entries: &Vec<HistoryText>, query: Option<String>, limit: Option<usize>) -> (r:
    Vec<usize>)
    ensures
        ({
            let q = match query {
                Some(s) => lowercase(s@),
                None => Seq::<char>::empty(),
            };
            let n = match limit {
                Some(l) => l as int,
                None => 50,
            };
            let all = newest_matches(entries@, q, 0);
            &&& r@.len() == if all.len() < n { all.len() as int } else { n }
            &&& forall|i: int| 0 <= i < r@.len() ==> r@[i] as int == #[trigger] all[i]
        }),
{
    let lower = match query {
        Some(s) => to_lowercase(s.as_str()),
        None => String::new(),
    };
    select_history_lowered(entries, lower.as_str(), limit)
}

/// The history search with the query already lower-cased (see [`select_history`]).
pub fn select_history_lowered(entries: &Vec<HistoryText>, lower_query: &str, limit: Option<usize>) -> (r:
    Vec<usize>)
    ensures
        ({
            let n = match limit {
                Some(l) => l as int,
                None => 50,
            };
            let all = newest_matches(entries@, lower_query@, 0);
            &&& r@.len() == if all.len() < n { all.len() as int } else { n }
            &&& forall|i: int| 0 <= i < r@.len() ==> r@[i] as int == #[trigger] all[i]
        }),
{
    let q = chars_of(lower_query);
    let n = match limit {
        Some(l) => l,
        None => 50,
    };
    let ghost all = newest_matches(entries@, q@, 0);
    let mut out: Vec<usize> = Vec::new();
    let mut k = entries.len();
    while k > 0 && out.len() < n
        invariant
            k <= entries@.len(),
            out@.len() <= n,
            out@.len() == newest_matches(entries@, q@, k as int).len(),
            forall|i: int|
                0 <= i < out@.len() ==> out@[i] as int == #[trigger] newest_matches(
                    entries@,
                    q@,
                    k as int,
                )[i],
        decreases k,
    {
        let j = k - 1;
        proof {
            assert(newest_matches(entries@, q@, j as int) == if entry_matches(
                entries@[j as int].raw@,
                entries@[j as int].final_text@,
                q@,
            ) {
                newest_matches(entries@, q@, k as int).push(j as int)
            } else {
                newest_matches(entries@, q@, k as int)
            });
        }
        if entry_hit(&entries[j], &q) {
            out.push(j);
        }
        k = j;
    }
    proof {
        lemma_newest_prefix(entries@, q@, 0, k as int);
        let part = newest_matches(entries@, q@, k as int);
        assert(part == all.take(part.len() as int));
        assert forall|i: int| 0 <= i < out@.len() implies out@[i] as int == #[trigger] all[i] by {
            assert(out@[i] as int == part[i]);
            assert(all.take(part.len() as int)[i] == all[i]);
        }
        if k > 0 {
            assert(out@.len() == n);
        } else {
            assert(all == part);
        }
    }
    out
}

} // verus!
