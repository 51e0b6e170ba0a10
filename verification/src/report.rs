//! The report: the releases that were found, the newest first.

use crate::model::LatestRelease;
use crate::model::LatestReleaseView;
use crate::timestamp::Instant;
use vstd::prelude::*;
use vstd::seq_lib::to_multiset_insert;

verus! {

/// The entries that are there, in the order in which they stand.
pub open spec fn present(results: Seq<Option<LatestReleaseView>>) -> Seq<LatestReleaseView>
    decreases results.len(),
{
    if results.len() == 0 {
        Seq::empty()
    } else {
        match results.first() {
            Some(entry) => seq![entry] + present(results.drop_first()),
            None => present(results.drop_first()),
        }
    }
}

/// How many entries at the head of `entries` were published strictly later
/// than `instant`.
pub open spec fn lead(instant: Instant, entries: Seq<LatestReleaseView>) -> nat
    decreases entries.len(),
{
    if entries.len() > 0 && entries.first().published_at.after(instant) {
        1 + lead(instant, entries.drop_first())
    } else {
        0
    }
}

/// `entries` with `entry` put behind the entries at its head that are
/// strictly newer, and so in front of any entry of its own time.
pub open spec fn placed(entry: LatestReleaseView, entries: Seq<LatestReleaseView>) -> Seq<
    LatestReleaseView,
> {
    entries.insert(lead(entry.published_at, entries) as int, entry)
}

/// `entries` ordered by publication time, the newest first; entries of one
/// time keep the order in which they stand in `entries`.
pub open spec fn newest_first(entries: Seq<LatestReleaseView>) -> Seq<LatestReleaseView>
    decreases entries.len(),
{
    if entries.len() == 0 {
        entries
    } else {
        placed(entries.first(), newest_first(entries.drop_first()))
    }
}

/// No entry is followed, anywhere behind it, by a newer one.
pub open spec fn ordered(entries: Seq<LatestReleaseView>) -> bool {
    forall|i: int, j: int|
        0 <= i < j < entries.len() ==> (#[trigger] entries[i]).published_at.at_or_after(
            (#[trigger] entries[j]).published_at,
        )
}

/// Every entry is strictly newer than all that follow it.
pub open spec fn strictly_ordered(entries: Seq<LatestReleaseView>) -> bool {
    forall|i: int, j: int|
        0 <= i < j < entries.len() ==> (#[trigger] entries[i]).published_at.after(
            (#[trigger] entries[j]).published_at,
        )
}

/// No two entries share a publication time.
pub open spec fn distinct_times(entries: Seq<LatestReleaseView>) -> bool {
    forall|i: int, j: int|
        0 <= i < j < entries.len() ==> (#[trigger] entries[i]).published_at != (
        #[trigger] entries[j]).published_at
}

/// The test "was published at `instant`".
pub open spec fn published_at(instant: Instant) -> spec_fn(LatestReleaseView) -> bool {
    |entry: LatestReleaseView| entry.published_at == instant
}

/// The report of a run: the entries of `results` that are there, the newest
/// first.
pub open spec fn report_of(results: Seq<Option<LatestReleaseView>>) -> Seq<LatestReleaseView> {
    newest_first(present(results))
}

/// The entries that `lead` counts are strictly newer than `instant`, and
/// the entry behind them, if there is one, is not.
pub proof fn lemma_lead(instant: Instant, entries: Seq<LatestReleaseView>)
    ensures
        lead(instant, entries) <= entries.len(),
        forall|i: int|
            0 <= i < lead(instant, entries) ==> (#[trigger] entries[i]).published_at.after(instant),
        lead(instant, entries) < entries.len() ==> !entries[lead(
            instant,
            entries,
        ) as int].published_at.after(instant),
    decreases entries.len(),
{
    if entries.len() > 0 && entries.first().published_at.after(instant) {
        let rest = entries.drop_first();
        lemma_lead(instant, rest);
        assert forall|i: int| 0 <= i < lead(instant, entries) implies (
        #[trigger] entries[i]).published_at.after(instant) by {
            if i > 0 {
                assert(entries[i] == rest[i - 1]);
            }
        }
        if lead(instant, entries) < entries.len() {
            assert(entries[lead(instant, entries) as int] == rest[lead(instant, rest) as int]);
        }
    }
}

/// `lead` is the length of the longest head of strictly newer entries.
pub proof fn lemma_lead_is(instant: Instant, entries: Seq<LatestReleaseView>, count: int)
    requires
        0 <= count <= entries.len(),
        forall|i: int| 0 <= i < count ==> (#[trigger] entries[i]).published_at.after(instant),
        count < entries.len() ==> !entries[count].published_at.after(instant),
    ensures
        lead(instant, entries) == count,
    decreases count,
{
    if count > 0 {
        let rest = entries.drop_first();
        assert(entries[0].published_at.after(instant));
        assert forall|i: int| 0 <= i < count - 1 implies (#[trigger] rest[i]).published_at.after(
            instant,
        ) by {
            assert(rest[i] == entries[i + 1]);
        }
        lemma_lead_is(instant, rest, count - 1);
    }
}

/// Placing an entry adds that entry and no other, and keeps an ordered
/// sequence ordered.
pub proof fn lemma_placed(entry: LatestReleaseView, entries: Seq<LatestReleaseView>)
    ensures
        placed(entry, entries).len() == entries.len() + 1,
        placed(entry, entries).to_multiset() == entries.to_multiset().insert(entry),
        ordered(entries) ==> ordered(placed(entry, entries)),
{
    let at = lead(entry.published_at, entries) as int;
    let after = placed(entry, entries);
    lemma_lead(entry.published_at, entries);
    to_multiset_insert(entries, at, entry);
    if ordered(entries) {
        assert forall|i: int, j: int| 0 <= i < j < after.len() implies (
        #[trigger] after[i]).published_at.at_or_after((#[trigger] after[j]).published_at) by {
            if j < at {
                assert(after[i] == entries[i] && after[j] == entries[j]);
            } else if j == at {
                assert(after[i] == entries[i]);
            } else if i < at {
                assert(after[i] == entries[i] && after[j] == entries[j - 1]);
            } else if i == at {
                assert(after[j] == entries[j - 1]);
                assert(entries[at].published_at.at_or_after(entries[j - 1].published_at));
            } else {
                assert(after[i] == entries[i - 1] && after[j] == entries[j - 1]);
            }
        }
    }
}

/// What one more result at the head adds to a report.
pub proof fn lemma_report_grows(results: Seq<Option<LatestReleaseView>>)
    requires
        results.len() > 0,
    ensures
        report_of(results) == match results.first() {
            Some(entry) => placed(entry, report_of(results.drop_first())),
            None => report_of(results.drop_first()),
        },
{
    match results.first() {
        Some(entry) => {
            let found = seq![entry] + present(results.drop_first());
            assert(found.drop_first() =~= present(results.drop_first()));
        },
        None => {},
    }
}

/// Puts `entry` into `report` behind the entries at its head that are
/// strictly newer.
pub fn place(report: &mut Vec<LatestRelease>, entry: LatestRelease)
    ensures
        final(report).deep_view() == placed(entry@, old(report).deep_view()),
{
    let mut at: usize = 0;
    while at < report.len() && report[at].published_at.is_after(&entry.published_at)
        invariant
            at <= report.len(),
            forall|i: int|
                0 <= i < at ==> (#[trigger] report.deep_view()[i]).published_at.after(
                    entry@.published_at,
                ),
        decreases report.len() - at,
    {
        assert(report.deep_view()[at as int] == report@[at as int]@);
        at = at + 1;
    }
    proof {
        if at < report.len() {
            assert(report.deep_view()[at as int] == report@[at as int]@);
        }
        lemma_lead_is(entry@.published_at, report.deep_view(), at as int);
    }
    let ghost before = report.deep_view();
    report.insert(at, entry);
    assert(report.deep_view() =~= before.insert(at as int, entry@));
}

/// Builds the report of a run from what each lookup gave: the entries that
/// are there, ordered by publication time with the newest first. Entries
/// of one time stay in the order in which they came.
pub fn build_report(results: Vec<Option<LatestRelease>>) -> (report: Vec<LatestRelease>)
    ensures
        report.deep_view() == report_of(results.deep_view()),
{
    let ghost all = results.deep_view();
    let mut results = results;
    let mut report: Vec<LatestRelease> = Vec::new();
    assert(all.subrange(all.len() as int, all.len() as int) =~= Seq::empty());
    assert(report.deep_view() =~= Seq::empty());
    while results.len() > 0
        invariant
            results.len() <= all.len(),
            results.deep_view() == all.subrange(0, results.len() as int),
            report.deep_view() == report_of(all.subrange(results.len() as int, all.len() as int)),
        decreases results.len(),
    {
        let ghost rest = all.subrange(results.len() as int, all.len() as int);
        let ghost here = all.subrange(results.len() - 1, all.len() as int);
        let ghost before = results.deep_view();
        let last = results.pop();
        proof {
            assert(here.drop_first() =~= rest);
            assert(here.first() == before[before.len() - 1]);
            assert(results.deep_view() =~= all.subrange(0, results.len() as int));
            lemma_report_grows(here);
        }
        match last {
            Some(Some(entry)) => {
                assert(here.first() == Some(entry@));
                place(&mut report, entry);
            },
            _ => {
                assert(here.first() is None);
            },
        }
    }
    assert(all.subrange(0, all.len() as int) =~= all);
    report
}

} // verus!
