//! What holds of every report.

use crate::model::LatestReleaseView;
use crate::report::distinct_times;
use crate::report::lead;
use crate::report::lemma_lead;
use crate::report::lemma_placed;
use crate::report::newest_first;
use crate::report::ordered;
use crate::report::placed;
use crate::report::present;
use crate::report::published_at;
use crate::report::report_of;
use crate::report::strictly_ordered;
use crate::timestamp::Instant;
use vstd::prelude::*;
use vstd::seq_lib::to_multiset_contains;
use vstd::seq_lib::to_multiset_insert;

verus! {

/// Sorting keeps every entry, as often as it stands there, and leaves no
/// entry behind an older one.
pub proof fn lemma_newest_first(entries: Seq<LatestReleaseView>)
    ensures
        newest_first(entries).len() == entries.len(),
        newest_first(entries).to_multiset() == entries.to_multiset(),
        ordered(newest_first(entries)),
    decreases entries.len(),
{
    if entries.len() > 0 {
        let rest = entries.drop_first();
        lemma_newest_first(rest);
        lemma_placed(entries.first(), newest_first(rest));
        to_multiset_insert(rest, 0, entries.first());
        assert(rest.insert(0, entries.first()) =~= entries);
    }
}

/// Sorting neither adds an entry nor loses one.
pub proof fn lemma_newest_first_contains(entries: Seq<LatestReleaseView>, entry: LatestReleaseView)
    ensures
        newest_first(entries).contains(entry) <==> entries.contains(entry),
{
    lemma_newest_first(entries);
    to_multiset_contains(entries, entry);
    to_multiset_contains(newest_first(entries), entry);
}

/// The entries that are there are the `Some` results, and no others.
pub proof fn lemma_present(results: Seq<Option<LatestReleaseView>>)
    ensures
        present(results).len() <= results.len(),
        forall|entry: LatestReleaseView| #[trigger]
            present(results).contains(entry) <==> results.contains(Some(entry)),
    decreases results.len(),
{
    if results.len() > 0 {
        let rest = results.drop_first();
        lemma_present(rest);
        assert forall|entry: LatestReleaseView| #[trigger]
            present(results).contains(entry) <==> results.contains(Some(entry)) by {
            if present(results).contains(entry) {
                let k = choose|k: int|
                    0 <= k < present(results).len() && present(results)[k] == entry;
                if results.first() == Some(entry) {
                    assert(results[0] == Some(entry));
                } else {
                    if results.first() is Some {
                        assert(present(rest)[k - 1] == entry);
                    }
                    assert(present(rest).contains(entry));
                    let j = choose|j: int| 0 <= j < rest.len() && rest[j] == Some(entry);
                    assert(results[j + 1] == Some(entry));
                }
            }
            if results.contains(Some(entry)) {
                let j = choose|j: int| 0 <= j < results.len() && results[j] == Some(entry);
                if j == 0 {
                    assert(present(results)[0] == entry);
                } else {
                    assert(rest[j - 1] == Some(entry));
                    assert(present(rest).contains(entry));
                    let k = choose|k: int| 0 <= k < present(rest).len() && present(rest)[k] == entry;
                    if results.first() is Some {
                        assert(present(results)[k + 1] == entry);
                    } else {
                        assert(present(results)[k] == entry);
                    }
                }
            }
        }
    }
}

/// The test "is there".
pub open spec fn is_there() -> spec_fn(Option<LatestReleaseView>) -> bool {
    |result: Option<LatestReleaseView>| result is Some
}

/// The entries that are there are the results without those that are
/// `None`, each without its `Some`: as many as there are, in their order.
pub proof fn lemma_present_keeps_the_order(results: Seq<Option<LatestReleaseView>>)
    ensures
        present(results) == results.filter(is_there()).map_values(
            |result: Option<LatestReleaseView>| result->0,
        ),
        present(results).len() == results.filter(is_there()).len(),
    decreases results.len(),
{
    let bare = |result: Option<LatestReleaseView>| result->0;
    if results.len() == 0 {
        assert(results.filter(is_there()) =~= Seq::empty()) by {
            reveal(Seq::filter);
        }
        assert(present(results) =~= results.filter(is_there()).map_values(bare));
    } else {
        let first = results.first();
        let rest = results.drop_first();
        lemma_present_keeps_the_order(rest);
        rest.lemma_filter_prepend(first, is_there());
        assert(seq![first] + rest =~= results);
        if first is Some {
            assert((seq![first] + rest.filter(is_there())).map_values(bare) =~= seq![first->0]
                + rest.filter(is_there()).map_values(bare));
        } else {
            assert(Seq::<Option<LatestReleaseView>>::empty() + rest.filter(is_there())
                =~= rest.filter(is_there()));
        }
    }
}

/// Every entry of a report is a release that some lookup found, so none
/// stands for a repository that has no release; and every release that was
/// found is in the report.
pub proof fn lemma_report_holds_what_was_found(results: Seq<Option<LatestReleaseView>>)
    ensures
        report_of(results).len() == present(results).len(),
        report_of(results).len() <= results.len(),
        forall|k: int|
            0 <= k < report_of(results).len() ==> results.contains(
                Some(#[trigger] report_of(results)[k]),
            ),
        forall|j: int|
            0 <= j < results.len() && (#[trigger] results[j]) is Some ==> report_of(
                results,
            ).contains(results[j]->0),
{
    lemma_present(results);
    lemma_newest_first(present(results));
    assert forall|k: int| 0 <= k < report_of(results).len() implies results.contains(
        Some(#[trigger] report_of(results)[k]),
    ) by {
        let entry = report_of(results)[k];
        assert(report_of(results).contains(entry));
        lemma_newest_first_contains(present(results), entry);
        assert(present(results).contains(entry));
    }
    assert forall|j: int| 0 <= j < results.len() && (#[trigger] results[j]) is Some implies report_of(
        results,
    ).contains(results[j]->0) by {
        let entry = results[j]->0;
        assert(results.contains(Some(entry)));
        assert(present(results).contains(entry));
        lemma_newest_first_contains(present(results), entry);
    }
}

/// In a report no entry is followed by a newer one: of two neighbours the
/// first was published at or after the second.
pub proof fn lemma_report_ordered(results: Seq<Option<LatestReleaseView>>)
    ensures
        ordered(report_of(results)),
        forall|i: int|
            0 <= i && i + 1 < report_of(results).len() ==> (#[trigger] report_of(
                results,
            )[i]).published_at.at_or_after(report_of(results)[i + 1].published_at),
{
    lemma_newest_first(present(results));
}

/// Where no lookup found a release the report is empty. This covers the run
/// over no repository at all.
pub proof fn lemma_report_of_nothing(results: Seq<Option<LatestReleaseView>>)
    requires
        forall|i: int| 0 <= i < results.len() ==> (#[trigger] results[i]) is None,
    ensures
        report_of(results) == Seq::<LatestReleaseView>::empty(),
    decreases results.len(),
{
    if results.len() > 0 {
        let rest = results.drop_first();
        assert forall|i: int| 0 <= i < rest.len() implies (#[trigger] rest[i]) is None by {
            assert(rest[i] == results[i + 1]);
        }
        lemma_report_of_nothing(rest);
        assert(results[0] is None);
        lemma_newest_first(present(rest));
        assert(present(rest) =~= Seq::<LatestReleaseView>::empty());
    }
}

/// Entries of pairwise different times come out strictly descending.
pub proof fn lemma_newest_first_strict(entries: Seq<LatestReleaseView>)
    requires
        distinct_times(entries),
    ensures
        strictly_ordered(newest_first(entries)),
    decreases entries.len(),
{
    if entries.len() > 0 {
        let first = entries.first();
        let rest = entries.drop_first();
        let sorted = newest_first(rest);
        let after = placed(first, sorted);
        let at = lead(first.published_at, sorted) as int;
        assert forall|i: int, j: int| 0 <= i < j < rest.len() implies (
        #[trigger] rest[i]).published_at != (#[trigger] rest[j]).published_at by {
            assert(rest[i] == entries[i + 1] && rest[j] == entries[j + 1]);
        }
        lemma_newest_first_strict(rest);
        lemma_lead(first.published_at, sorted);
        assert forall|k: int| 0 <= k < sorted.len() implies (
        #[trigger] sorted[k]).published_at != first.published_at by {
            assert(sorted.contains(sorted[k]));
            lemma_newest_first_contains(rest, sorted[k]);
            let m = choose|m: int| 0 <= m < rest.len() && rest[m] == sorted[k];
            assert(entries[m + 1] == sorted[k]);
            assert(entries[0].published_at != entries[m + 1].published_at);
        }
        assert forall|i: int, j: int| 0 <= i < j < after.len() implies (
        #[trigger] after[i]).published_at.after((#[trigger] after[j]).published_at) by {
            if j < at {
                assert(after[i] == sorted[i] && after[j] == sorted[j]);
            } else if j == at {
                assert(after[i] == sorted[i]);
            } else if i < at {
                assert(after[i] == sorted[i] && after[j] == sorted[j - 1]);
            } else if i == at {
                assert(after[j] == sorted[j - 1]);
                assert(sorted[at].published_at != first.published_at);
                if at < j - 1 {
                    assert(sorted[at].published_at.after(sorted[j - 1].published_at));
                }
            } else {
                assert(after[i] == sorted[i - 1] && after[j] == sorted[j - 1]);
            }
        }
    }
}

/// Where the releases that were found have pairwise different publication
/// times, the report holds each of them once, as many entries as releases
/// were found, and every entry is strictly newer than the next.
pub proof fn lemma_report_of_distinct_times(results: Seq<Option<LatestReleaseView>>)
    requires
        distinct_times(present(results)),
    ensures
        report_of(results).len() == present(results).len(),
        report_of(results).to_multiset() == present(results).to_multiset(),
        strictly_ordered(report_of(results)),
        forall|i: int|
            0 <= i && i + 1 < report_of(results).len() ==> (#[trigger] report_of(
                results,
            )[i]).published_at.after(report_of(results)[i + 1].published_at),
{
    lemma_newest_first(present(results));
    lemma_newest_first_strict(present(results));
}

/// Placing an entry leaves the entries of every other time as they stood,
/// and puts it in front of those of its own time.
pub proof fn lemma_placed_among_equals(
    entry: LatestReleaseView,
    entries: Seq<LatestReleaseView>,
    instant: Instant,
)
    ensures
        placed(entry, entries).filter(published_at(instant)) == if entry.published_at == instant {
            seq![entry] + entries.filter(published_at(instant))
        } else {
            entries.filter(published_at(instant))
        },
{
    let test = published_at(instant);
    let at = lead(entry.published_at, entries) as int;
    lemma_lead(entry.published_at, entries);
    let head = entries.subrange(0, at);
    let tail = entries.subrange(at, entries.len() as int);
    assert(entries =~= head + tail);
    assert(placed(entry, entries) =~= (head + seq![entry]) + tail);
    Seq::filter_distributes_over_add(head, tail, test);
    Seq::filter_distributes_over_add(head + seq![entry], tail, test);
    Seq::filter_distributes_over_add(head, seq![entry], test);
    Seq::<LatestReleaseView>::empty().lemma_filter_prepend(entry, test);
    assert(seq![entry] + Seq::<LatestReleaseView>::empty() =~= seq![entry]);
    assert(Seq::<LatestReleaseView>::empty().filter(test) =~= Seq::<LatestReleaseView>::empty()) by {
        reveal(Seq::filter);
    }
    if entry.published_at == instant {
        assert(head.all(|e: LatestReleaseView| !test(e))) by {
            assert forall|i: int| 0 <= i < head.len() implies !test(#[trigger] head[i]) by {
                assert(head[i] == entries[i]);
            }
        }
        head.lemma_all_neg_filter_empty(test);
        assert(head.filter(test) =~= Seq::<LatestReleaseView>::empty());
        assert(seq![entry].filter(test) =~= seq![entry]);
        assert(placed(entry, entries).filter(test) =~= seq![entry] + entries.filter(test));
    } else {
        assert(seq![entry].filter(test) =~= Seq::<LatestReleaseView>::empty());
        assert(placed(entry, entries).filter(test) =~= entries.filter(test));
    }
}

/// Sorting is stable: the entries of one publication time keep the order
/// in which they stood.
pub proof fn lemma_newest_first_stable(entries: Seq<LatestReleaseView>, instant: Instant)
    ensures
        newest_first(entries).filter(published_at(instant)) == entries.filter(
            published_at(instant),
        ),
    decreases entries.len(),
{
    if entries.len() > 0 {
        let first = entries.first();
        let rest = entries.drop_first();
        lemma_newest_first_stable(rest, instant);
        lemma_placed_among_equals(first, newest_first(rest), instant);
        rest.lemma_filter_prepend(first, published_at(instant));
        assert(seq![first] + rest =~= entries);
        assert(Seq::<LatestReleaseView>::empty() + rest.filter(published_at(instant))
            =~= rest.filter(published_at(instant)));
    }
}

/// In a report the releases of one publication time stand in the order in
/// which their lookups came.
pub proof fn lemma_report_stable(results: Seq<Option<LatestReleaseView>>, instant: Instant)
    ensures
        report_of(results).filter(published_at(instant)) == present(results).filter(
            published_at(instant),
        ),
{
    lemma_newest_first_stable(present(results), instant);
}

/// Two ordered arrangements with the same entries of every publication
/// time, in the same order, are one arrangement.
pub proof fn lemma_ordered_is_settled(one: Seq<LatestReleaseView>, other: Seq<LatestReleaseView>)
    requires
        ordered(one),
        ordered(other),
        forall|instant: Instant| #[trigger]
            one.filter(published_at(instant)) == other.filter(published_at(instant)),
    ensures
        one == other,
    decreases one.len(),
{
    if one.len() == 0 || other.len() == 0 {
        if one.len() > 0 {
            let test = published_at(one[0].published_at);
            one.lemma_filter_contains(test, 0);
            other.lemma_filter_len(test);
        }
        if other.len() > 0 {
            let test = published_at(other[0].published_at);
            other.lemma_filter_contains(test, 0);
            one.lemma_filter_len(test);
        }
        assert(one =~= other);
    } else {
        let here = published_at(one[0].published_at);
        let there = published_at(other[0].published_at);
        one.lemma_filter_contains(here, 0);
        other.lemma_filter_contains_rev(here, one[0]);
        let j = choose|j: int| 0 <= j < other.len() && other[j] == one[0];
        assert(other[0].published_at.at_or_after(other[j].published_at));
        other.lemma_filter_contains(there, 0);
        one.lemma_filter_contains_rev(there, other[0]);
        let i = choose|i: int| 0 <= i < one.len() && one[i] == other[0];
        assert(one[0].published_at.at_or_after(one[i].published_at));
        assert(one[0].published_at == other[0].published_at);

        let rest = one.drop_first();
        let others = other.drop_first();
        assert(seq![one[0]] + rest =~= one);
        assert(seq![other[0]] + others =~= other);
        rest.lemma_filter_prepend(one[0], here);
        others.lemma_filter_prepend(other[0], here);
        assert(one.filter(here)[0] == one[0]);
        assert(other.filter(here)[0] == other[0]);
        assert(one[0] == other[0]);

        assert forall|a: int, b: int| 0 <= a < b < rest.len() implies (
        #[trigger] rest[a]).published_at.at_or_after((#[trigger] rest[b]).published_at) by {
            assert(rest[a] == one[a + 1] && rest[b] == one[b + 1]);
        }
        assert forall|a: int, b: int| 0 <= a < b < others.len() implies (
        #[trigger] others[a]).published_at.at_or_after((#[trigger] others[b]).published_at) by {
            assert(others[a] == other[a + 1] && others[b] == other[b + 1]);
        }
        assert forall|instant: Instant| #[trigger]
            rest.filter(published_at(instant)) == others.filter(published_at(instant)) by {
            let test = published_at(instant);
            rest.lemma_filter_prepend(one[0], test);
            others.lemma_filter_prepend(other[0], test);
            assert(one.filter(test) == other.filter(test));
            if test(one[0]) {
                assert((seq![one[0]] + rest.filter(test)).drop_first() =~= rest.filter(test));
                assert((seq![other[0]] + others.filter(test)).drop_first() =~= others.filter(
                    test,
                ));
            } else {
                assert(Seq::<LatestReleaseView>::empty() + rest.filter(test) =~= rest.filter(
                    test,
                ));
                assert(Seq::<LatestReleaseView>::empty() + others.filter(test) =~= others.filter(
                    test,
                ));
            }
        }
        lemma_ordered_is_settled(rest, others);
        assert(one =~= other);
    }
}

/// The report is the one arrangement of the releases that were found in
/// which no entry stands behind an older one and the releases of one
/// publication time keep the order of their lookups.
pub proof fn lemma_report_is_the_stable_order(
    results: Seq<Option<LatestReleaseView>>,
    other: Seq<LatestReleaseView>,
)
    requires
        ordered(other),
        forall|instant: Instant| #[trigger]
            other.filter(published_at(instant)) == present(results).filter(published_at(instant)),
    ensures
        other == report_of(results),
{
    lemma_newest_first(present(results));
    assert forall|instant: Instant| #[trigger]
        report_of(results).filter(published_at(instant)) == other.filter(
            published_at(instant),
        ) by {
        lemma_newest_first_stable(present(results), instant);
    }
    lemma_ordered_is_settled(report_of(results), other);
}

} // verus!
