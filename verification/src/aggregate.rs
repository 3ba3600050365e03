//! Merging the sources' results into one ordered feed.
//!
//! Every source is queried with the same window and record cap; each query
//! either fails — contributing nothing — or yields raw records. The surviving
//! records are normalized, concatenated, sorted newest first, and projected
//! to their rendered text. One source's outage never blocks or empties the
//! others, and an invalid date yields an empty feed.

use vstd::prelude::*;
use vstd::relations::sorted_by;
use crate::entry::{entry_leq_exec, normalize_record, spec_entry, Entry, RawRecord};
use crate::order::{
    entry_leq, entry_order, entry_order_fn, lemma_entry_leq_refl, lemma_entry_leq_total,
    lemma_entry_leq_trans, lemma_entry_order_total_ordering, EntryView,
};
use crate::window::{
    compute, format_datetime, spec_compute, spec_decimal, spec_format_datetime, u64_to_string,
    window_wf, TimeWindow,
};

verus! {

/// The fixed cap on the number of records one source may return.
pub const RECORD_LIMIT: u64 = 10000;

/// What one source's query came to: a failure of any kind — transport,
/// status, malformed body — or the records it returned. Failures are
/// contained here; they never propagate past the source that suffered them.
pub enum SourceOutcome {
    /// The source could not be queried or answered unusably.
    Unavailable,
    /// The raw records the source returned for the window.
    Records(Vec<RawRecord>),
}

/// The query every source is asked with: the shared window and the shared
/// record cap. Each source gets its own copy; none shares state with another.
pub struct SourceQuery {
    pub window: TimeWindow,
    pub limit: u64,
}

/// Builds the query parameters a source request carries: the window bounds
/// as canonical instant strings and the record cap in decimal, consistently
/// across all sources.
pub fn build_params(q: &SourceQuery) -> (params: Vec<(String, String)>)
    requires
        window_wf(q.window),
    ensures
        params@.len() == 3,
        params@[0].0@ == "min_date_added"@ && params@[0].1@ == spec_format_datetime(
            q.window.start,
        ),
        params@[1].0@ == "max_date_added"@ && params@[1].1@ == spec_format_datetime(q.window.end),
        params@[2].0@ == "limit"@ && params@[2].1@ == spec_decimal(q.limit as int),
{
    let mut params: Vec<(String, String)> = Vec::new();
    params.push((String::from_str("min_date_added"), format_datetime(&q.window.start)));
    params.push((String::from_str("max_date_added"), format_datetime(&q.window.end)));
    params.push((String::from_str("limit"), u64_to_string(q.limit)));
    params
}

/// The views of a sequence of entries.
pub open spec fn entry_views(s: Seq<Entry>) -> Seq<EntryView> {
    s.map_values(|e: Entry| e@)
}

proof fn lemma_views_push(s: Seq<Entry>, e: Entry)
    ensures
        entry_views(s.push(e)) =~= entry_views(s).push(e@),
{
}

proof fn lemma_views_remove(s: Seq<Entry>, i: int)
    requires
        0 <= i < s.len(),
    ensures
        entry_views(s.remove(i)) =~= entry_views(s).remove(i),
{
    s.remove_ensures(i);
    entry_views(s).remove_ensures(i);
}

/// Sorts entries into display order: sort key descending, ties broken by
/// rendered text descending. The result is a permutation of the input and is
/// sorted by the total order, which pins it down uniquely.
pub fn sort_entries(input: Vec<Entry>) -> (out: Vec<Entry>)
    ensures
        entry_views(out@).to_multiset() == entry_views(input@).to_multiset(),
        sorted_by(entry_views(out@), entry_order_fn()),
{
    broadcast use vstd::seq_lib::group_to_multiset_ensures;

    let mut rest = input;
    let mut out: Vec<Entry> = Vec::new();
    while rest.len() > 0
        invariant
            entry_views(out@).to_multiset().add(entry_views(rest@).to_multiset())
                =~= entry_views(input@).to_multiset(),
            sorted_by(entry_views(out@), entry_order_fn()),
            forall|i: int, j: int|
                0 <= i < out@.len() && 0 <= j < rest@.len() ==> entry_order(out@[i]@, rest@[j]@),
        decreases rest@.len(),
    {
        let mut m: usize = 0;
        let mut k: usize = 1;
        proof {
            lemma_entry_leq_refl(rest@[0]@);
        }
        while k < rest.len()
            invariant
                0 < rest@.len(),
                m < k,
                1 <= k <= rest@.len(),
                forall|j: int| 0 <= j < k ==> entry_leq(rest@[j]@, rest@[m as int]@),
            decreases rest@.len() - k,
        {
            if !entry_leq_exec(&rest[k], &rest[m]) {
                proof {
                    lemma_entry_leq_total(rest@[k as int]@, rest@[m as int]@);
                    assert forall|j: int| 0 <= j < k + 1 implies entry_leq(
                        rest@[j]@,
                        rest@[k as int]@,
                    ) by {
                        if j < k {
                            lemma_entry_leq_trans(rest@[j]@, rest@[m as int]@, rest@[k as int]@);
                        } else {
                            lemma_entry_leq_refl(rest@[k as int]@);
                        }
                    }
                }
                m = k;
            }
            k = k + 1;
        }
        let ghost prev_rest = rest@;
        let ghost prev_out = out@;
        let x = rest.remove(m);
        out.push(x);
        proof {
            lemma_views_remove(prev_rest, m as int);
            lemma_views_push(prev_out, x);
            prev_rest.remove_ensures(m as int);
            assert(entry_views(prev_rest)[m as int] == x@);
            assert(entry_views(rest@) == entry_views(prev_rest).remove(m as int));
            vstd::seq_lib::to_multiset_remove::<EntryView>(entry_views(prev_rest), m as int);
            vstd::seq_lib::to_multiset_build::<EntryView>(entry_views(prev_out), x@);
            assert(entry_views(out@).to_multiset() == entry_views(prev_out).to_multiset().insert(
                x@,
            ));
            entry_views(prev_rest).to_multiset_ensures();
            assert(entry_views(prev_rest).contains(x@));
            assert(entry_views(prev_rest).to_multiset().count(x@) > 0);
            assert(entry_views(out@).to_multiset().add(entry_views(rest@).to_multiset())
                =~= entry_views(prev_out).to_multiset().add(entry_views(prev_rest).to_multiset()));
            assert forall|i: int, j: int|
                0 <= i < out@.len() && 0 <= j < rest@.len() implies entry_order(
                out@[i]@,
                rest@[j]@,
            ) by {
                let pj = if j < m as int {
                    j
                } else {
                    j + 1
                };
                assert(rest@[j] == prev_rest[pj]);
                if i < prev_out.len() {
                    assert(out@[i] == prev_out[i]);
                } else {
                    assert(out@[i] == x);
                    assert(entry_leq(prev_rest[pj]@, prev_rest[m as int]@));
                }
            }
            assert(sorted_by(entry_views(out@), entry_order_fn())) by {
                assert forall|i: int, j: int|
                    0 <= i < j < entry_views(out@).len() implies entry_order_fn()(
                    entry_views(out@)[i],
                    entry_views(out@)[j],
                ) by {
                    if j < prev_out.len() {
                        assert(entry_order_fn()(entry_views(prev_out)[i], entry_views(prev_out)[j]));
                    } else {
                        assert(out@[j] == x);
                        assert(entry_order(prev_out[i]@, prev_rest[m as int]@));
                    }
                }
            }
        }
    }
    out
}

/// The entries one source's outcome contributes: none when it failed, its
/// normalized records when it answered.
pub open spec fn spec_outcome_entries(o: SourceOutcome, fallback: Seq<char>) -> Seq<EntryView> {
    match o {
        SourceOutcome::Unavailable => Seq::<EntryView>::empty(),
        SourceOutcome::Records(rs) => rs@.map_values(|r: RawRecord| spec_entry(r, fallback)),
    }
}

/// The concatenation of every source's contribution, in source order.
pub open spec fn spec_all_entries(os: Seq<SourceOutcome>, fallback: Seq<char>) -> Seq<EntryView>
    decreases os.len(),
{
    if os.len() == 0 {
        Seq::<EntryView>::empty()
    } else {
        spec_outcome_entries(os[0], fallback) + spec_all_entries(os.drop_first(), fallback)
    }
}

proof fn lemma_all_entries_push(os: Seq<SourceOutcome>, o: SourceOutcome, fallback: Seq<char>)
    ensures
        spec_all_entries(os.push(o), fallback) =~= spec_all_entries(os, fallback)
            + spec_outcome_entries(o, fallback),
    decreases os.len(),
{
    if os.len() == 0 {
        assert(os.push(o)[0] == o);
        assert(os.push(o).drop_first() =~= os);
    } else {
        assert(os.push(o)[0] == os[0]);
        assert(os.push(o).drop_first() =~= os.drop_first().push(o));
        lemma_all_entries_push(os.drop_first(), o, fallback);
    }
}

/// Normalizes every record that any source returned, against the window's
/// start instant as the fallback sort key.
pub fn collect_entries(outcomes: &Vec<SourceOutcome>, fallback_key: &str) -> (es: Vec<Entry>)
    ensures
        entry_views(es@) == spec_all_entries(outcomes@, fallback_key@),
{
    let ghost fb = fallback_key@;
    let mut es: Vec<Entry> = Vec::new();
    let mut i: usize = 0;
    while i < outcomes.len()
        invariant
            i <= outcomes@.len(),
            entry_views(es@) == spec_all_entries(outcomes@.take(i as int), fb),
            fb == fallback_key@,
        decreases outcomes@.len() - i,
    {
        let ghost prev_take = outcomes@.take(i as int);
        match &outcomes[i] {
            SourceOutcome::Unavailable => {
                proof {
                    lemma_all_entries_push(prev_take, outcomes@[i as int], fb);
                    assert(outcomes@.take(i + 1) =~= prev_take.push(outcomes@[i as int]));
                    assert(entry_views(es@) =~= spec_all_entries(outcomes@.take(i + 1), fb));
                }
            },
            SourceOutcome::Records(rs) => {
                let ghost base = entry_views(es@);
                let mut j: usize = 0;
                while j < rs.len()
                    invariant
                        j <= rs@.len(),
                        entry_views(es@) =~= base + rs@.take(j as int).map_values(
                            |r: RawRecord| spec_entry(r, fb),
                        ),
                        fb == fallback_key@,
                    decreases rs@.len() - j,
                {
                    let ghost prev_es = es@;
                    let e = normalize_record(&rs[j], fallback_key);
                    es.push(e);
                    proof {
                        lemma_views_push(prev_es, e);
                        assert(rs@.take(j + 1).map_values(|r: RawRecord| spec_entry(r, fb))
                            =~= rs@.take(j as int).map_values(
                            |r: RawRecord| spec_entry(r, fb),
                        ).push(spec_entry(rs@[j as int], fb)));
                        assert(entry_views(es@) =~= base + rs@.take(j + 1).map_values(
                            |r: RawRecord| spec_entry(r, fb),
                        ));
                    }
                    j = j + 1;
                }
                proof {
                    assert(rs@.take(rs@.len() as int) =~= rs@);
                    lemma_all_entries_push(prev_take, outcomes@[i as int], fb);
                    assert(outcomes@.take(i + 1) =~= prev_take.push(outcomes@[i as int]));
                    assert(entry_views(es@) =~= spec_all_entries(outcomes@.take(i + 1), fb));
                }
            },
        }
        i = i + 1;
    }
    proof {
        assert(outcomes@.take(outcomes@.len() as int) =~= outcomes@);
    }
    es
}

/// The feed the sources' outcomes determine: every surviving record
/// normalized, sorted into display order, projected to its rendered text.
pub open spec fn spec_feed(os: Seq<SourceOutcome>, fallback: Seq<char>) -> Seq<Seq<char>> {
    spec_all_entries(os, fallback).sort_by(entry_order_fn()).map_values(|p: EntryView| p.1)
}

/// Merges the sources' outcomes for a window into the final feed: normalize,
/// concatenate, sort newest first, project to rendered text. Total — the
/// outcomes already contain every failure there is.
pub fn merge_feed(outcomes: &Vec<SourceOutcome>, window: &TimeWindow) -> (feed: Vec<String>)
    requires
        window_wf(*window),
    ensures
        feed@.map_values(|s: String| s@) == spec_feed(
            outcomes@,
            spec_format_datetime(window.start),
        ),
        feed@.len() == spec_all_entries(outcomes@, spec_format_datetime(window.start)).len(),
{
    let fallback_key = format_datetime(&window.start);
    let es = collect_entries(outcomes, fallback_key.as_str());
    let sorted = sort_entries(es);
    proof {
        lemma_entry_order_total_ordering();
        spec_all_entries(outcomes@, fallback_key@).lemma_sort_by_ensures(entry_order_fn());
        vstd::seq_lib::lemma_sorted_unique(
            entry_views(sorted@),
            spec_all_entries(outcomes@, fallback_key@).sort_by(entry_order_fn()),
            entry_order_fn(),
        );
        entry_views(sorted@).to_multiset_ensures();
        spec_all_entries(outcomes@, fallback_key@).to_multiset_ensures();
        entry_views(es@).to_multiset_ensures();
    }
    let mut feed: Vec<String> = Vec::new();
    let mut i: usize = 0;
    while i < sorted.len()
        invariant
            i <= sorted@.len(),
            feed@.map_values(|s: String| s@) =~= entry_views(sorted@).take(i as int).map_values(
                |p: EntryView| p.1,
            ),
        decreases sorted@.len() - i,
    {
        let ghost prev_feed = feed@;
        let text = sorted[i].rendered_text.clone();
        feed.push(text);
        proof {
            assert(feed@.map_values(|s: String| s@) =~= prev_feed.map_values(
                |s: String| s@,
            ).push(text@));
            assert(entry_views(sorted@).take(i + 1) =~= entry_views(sorted@).take(
                i as int,
            ).push(entry_views(sorted@)[i as int]));
            assert(entry_views(sorted@).take(i + 1).map_values(|p: EntryView| p.1)
                =~= entry_views(sorted@).take(i as int).map_values(|p: EntryView| p.1).push(
                entry_views(sorted@)[i as int].1,
            ));
            assert(feed@.map_values(|s: String| s@) =~= entry_views(sorted@).take(
                i + 1,
            ).map_values(|p: EntryView| p.1));
        }
        i = i + 1;
    }
    proof {
        assert(entry_views(sorted@).take(sorted@.len() as int) =~= entry_views(sorted@));
        assert(feed@.map_values(|s: String| s@) =~= spec_feed(outcomes@, fallback_key@));
    }
    feed
}

/// The whole pipeline for one request: computes the window the date denotes
/// and merges the sources' outcomes for it. An invalid date yields the empty
/// feed — never an error — and with the window fixed the feed is a function
/// of the outcomes alone.
pub fn aggregate(date_str: &str, outcomes: &Vec<SourceOutcome>) -> (feed: Vec<String>)
    ensures
        match spec_compute(date_str@) {
            Some(w) => feed@.map_values(|s: String| s@) == spec_feed(
                outcomes@,
                spec_format_datetime(w.start),
            ),
            None => feed@.len() == 0,
        },
{
    match compute(date_str) {
        Ok(window) => merge_feed(outcomes, &window),
        Err(_) => Vec::new(),
    }
}

proof fn lemma_all_entries_all_unavailable(os: Seq<SourceOutcome>, fallback: Seq<char>)
    requires
        forall|i: int| 0 <= i < os.len() ==> os[i] is Unavailable,
    ensures
        spec_all_entries(os, fallback) =~= Seq::<EntryView>::empty(),
    decreases os.len(),
{
    if os.len() > 0 {
        lemma_all_entries_all_unavailable(os.drop_first(), fallback);
    }
}

proof fn lemma_all_entries_single(os: Seq<SourceOutcome>, k: int, fallback: Seq<char>)
    requires
        0 <= k < os.len(),
        forall|i: int| 0 <= i < os.len() && i != k ==> os[i] is Unavailable,
    ensures
        spec_all_entries(os, fallback) =~= spec_outcome_entries(os[k], fallback),
    decreases os.len(),
{
    if k == 0 {
        lemma_all_entries_all_unavailable(os.drop_first(), fallback);
    } else {
        lemma_all_entries_single(os.drop_first(), k - 1, fallback);
    }
}

/// Fault isolation: when exactly one source answers and every other fails,
/// the feed is exactly the answering source's entries, sorted into display
/// order — failing sources never reduce or corrupt a surviving source's
/// output.
pub proof fn lemma_fault_isolation(os: Seq<SourceOutcome>, k: int, fallback: Seq<char>)
    requires
        0 <= k < os.len(),
        forall|i: int| 0 <= i < os.len() && i != k ==> os[i] is Unavailable,
    ensures
        spec_feed(os, fallback) == spec_outcome_entries(os[k], fallback).sort_by(
            entry_order_fn(),
        ).map_values(|p: EntryView| p.1),
{
    lemma_all_entries_single(os, k, fallback);
}

/// Determinism: the display order admits exactly one sorted arrangement of
/// any collection of entries, so identical inputs always yield the identical
/// feed, run after run.
pub proof fn lemma_feed_deterministic(e1: Seq<EntryView>, e2: Seq<EntryView>)
    requires
        e1.to_multiset() == e2.to_multiset(),
        sorted_by(e1, entry_order_fn()),
        sorted_by(e2, entry_order_fn()),
    ensures
        e1 == e2,
{
    lemma_entry_order_total_ordering();
    vstd::seq_lib::lemma_sorted_unique(e1, e2, entry_order_fn());
}

} // verus!
