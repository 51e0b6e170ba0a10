//! What holds of every run, from its first request to its end.

use crate::client::release_address;
use crate::model::FetchError;
use crate::model::LatestReleaseView;
use crate::model::StarredRepoView;
use crate::pipeline::ActionView;
use crate::pipeline::EventView;
use crate::pipeline::Phase;
use crate::pipeline::RunView;
use crate::report::report_of;
use crate::report_proofs::lemma_report_holds_what_was_found;
use crate::report_proofs::lemma_report_of_nothing;
use crate::resolve::is_success;
use crate::resolve::ReplyView;
use crate::resolve::NOT_FOUND;
use vstd::prelude::*;

verus! {

/// The run after it has taken `events` in turn.
pub open spec fn after(run: RunView, events: Seq<EventView>) -> RunView
    decreases events.len(),
{
    if events.len() == 0 {
        run
    } else {
        after(run.step(events.first()).0, events.drop_first())
    }
}

/// What the run asks for while it takes `events` in turn: one action for
/// each event.
pub open spec fn asked(run: RunView, events: Seq<EventView>) -> Seq<ActionView>
    decreases events.len(),
{
    if events.len() == 0 {
        Seq::empty()
    } else {
        seq![run.step(events.first()).1] + asked(run.step(events.first()).0, events.drop_first())
    }
}

/// The replies as the events that report them.
pub open spec fn replied(replies: Seq<ReplyView>) -> Seq<EventView> {
    Seq::new(replies.len(), |i: int| EventView::Replied(replies[i]))
}

/// The events of a run whose listing gives `repos` and whose lookups are
/// answered by `replies`, in turn.
pub open spec fn events_of(repos: Seq<StarredRepoView>, replies: Seq<ReplyView>) -> Seq<
    EventView,
> {
    seq![EventView::Listed(repos)] + replied(replies)
}

/// What the lookups gave: for each reply the release that it holds for the
/// repository at its place, if any.
pub open spec fn results_of(repos: Seq<StarredRepoView>, replies: Seq<ReplyView>) -> Seq<
    Option<LatestReleaseView>,
> {
    Seq::new(
        replies.len(),
        |i: int|
            match replies[i].resolved(repos[i].full_name) {
                Ok(found) => found,
                Err(_) => None,
            },
    )
}

/// The lookup of the latest release of `repo`.
pub open spec fn look_up(repo: StarredRepoView) -> ActionView {
    ActionView::LookUp { url: release_address(repo.full_name) }
}

/// One event alone is one step.
pub proof fn lemma_after_one(run: RunView, event: EventView)
    ensures
        after(run, seq![event]) == run.step(event).0,
        asked(run, seq![event]) == seq![run.step(event).1],
{
    let events = seq![event];
    assert(events.first() == event);
    assert(events.drop_first() =~= Seq::<EventView>::empty());
    assert(after(run.step(event).0, events.drop_first()) == run.step(event).0);
    assert(asked(run.step(event).0, events.drop_first()) =~= Seq::<ActionView>::empty());
    assert(asked(run, events) =~= seq![run.step(event).1]);
}

/// Taking events one after another is taking them all.
pub proof fn lemma_after_both(run: RunView, first: Seq<EventView>, second: Seq<EventView>)
    ensures
        after(run, first + second) == after(after(run, first), second),
        asked(run, first + second) == asked(run, first) + asked(after(run, first), second),
        asked(run, first).len() == first.len(),
    decreases first.len(),
{
    if first.len() == 0 {
        assert(first + second =~= second);
        assert(asked(run, first) + asked(run, second) =~= asked(run, second));
    } else {
        let next = run.step(first.first()).0;
        assert((first + second).first() == first.first());
        assert((first + second).drop_first() =~= first.drop_first() + second);
        lemma_after_both(next, first.drop_first(), second);
        assert(asked(run, first + second) =~= asked(run, first) + asked(
            after(run, first),
            second,
        ));
    }
}

/// A run that is over stays as it is and asks for nothing more.
pub proof fn lemma_over_stays(run: RunView, events: Seq<EventView>)
    requires
        run.over(),
    ensures
        after(run, events) == run,
        asked(run, events).len() == events.len(),
        forall|i: int| 0 <= i < events.len() ==> #[trigger] asked(run, events)[i] == ActionView::Idle,
    decreases events.len(),
{
    if events.len() > 0 {
        assert(run.step(events.first()) == (run, ActionView::Idle));
        lemma_over_stays(run, events.drop_first());
        assert forall|i: int| 0 <= i < events.len() implies #[trigger] asked(run, events)[i]
            == ActionView::Idle by {
            if i > 0 {
                assert(asked(run, events)[i] == asked(run, events.drop_first())[i - 1]);
            }
        }
    }
}

/// A step leaves a run as it ought to be.
pub proof fn lemma_step_keeps_wf(run: RunView, event: EventView)
    requires
        run.wf(),
    ensures
        run.step(event).0.wf(),
{
}

/// A run ends once: after it has emitted its report or given up it asks
/// for nothing more, whatever it is told. So no run does both.
pub proof fn lemma_ends_once(run: RunView, events: Seq<EventView>)
    ensures
        forall|i: int, j: int|
            #![trigger asked(run, events)[i], asked(run, events)[j]]
            0 <= i < j < events.len() && (asked(run, events)[i] is Emit || asked(
                run,
                events,
            )[i] is Abort) ==> asked(run, events)[j] == ActionView::Idle,
    decreases events.len(),
{
    if events.len() > 0 {
        let next = run.step(events.first());
        let rest = events.drop_first();
        let trace = asked(run, events);
        lemma_after_both(next.0, rest, Seq::empty());
        lemma_ends_once(next.0, rest);
        if next.1 is Emit || next.1 is Abort {
            lemma_over_stays(next.0, rest);
        }
        assert forall|i: int, j: int|
            #![trigger trace[i], trace[j]]
            0 <= i < j < events.len() && (trace[i] is Emit
                || trace[i] is Abort) implies trace[j] == ActionView::Idle by {
            assert(trace[j] == asked(next.0, rest)[j - 1]);
            if i > 0 {
                assert(trace[i] == asked(next.0, rest)[i - 1]);
            }
        }
    }
}

/// While no reply is fatal, each reply is followed by the lookup for the
/// next repository, and the last of them by the report.
pub proof fn lemma_lookups(repos: Seq<StarredRepoView>, replies: Seq<ReplyView>, done: int)
    requires
        0 <= done <= replies.len() <= repos.len(),
        done < repos.len(),
        forall|i: int| 0 <= i < replies.len() ==> !(#[trigger] replies[i]).fatal(),
    ensures
        ({
            let results = results_of(repos, replies);
            let run = RunView { phase: Phase::Resolving, repos, results: results.take(done) };
            let events = replied(replies.skip(done));
            &&& asked(run, events).len() == replies.len() - done
            &&& forall|t: int|
                done <= t < replies.len() ==> #[trigger] asked(run, events)[t - done]
                    == RunView::proceed(repos, results.take(t + 1)).1
            &&& after(run, events) == if done == replies.len() {
                run
            } else {
                RunView::proceed(repos, results).0
            }
        }),
    decreases replies.len() - done,
{
    let results = results_of(repos, replies);
    let run = RunView { phase: Phase::Resolving, repos, results: results.take(done) };
    let events = replied(replies.skip(done));
    if done < replies.len() {
        assert(events.first() == EventView::Replied(replies[done]));
        assert(!replies[done].fatal());
        let found = results[done];
        assert(replies[done].resolved(repos[done].full_name) == Ok::<
            Option<LatestReleaseView>,
            FetchError,
        >(found));
        assert(results.take(done).push(found) =~= results.take(done + 1));
        let next = RunView::proceed(repos, results.take(done + 1));
        assert(run.step(events.first()) == next);
        assert(events.drop_first() =~= replied(replies.skip(done + 1)));
        if done + 1 < repos.len() {
            lemma_lookups(repos, replies, done + 1);
            if done + 1 == replies.len() {
                assert(results.take(done + 1) =~= results);
            }
        } else {
            assert(results.take(done + 1) =~= results);
            assert(events.drop_first().len() == 0);
            assert(after(next.0, events.drop_first()) == next.0);
        }
        assert(after(run, events) == after(next.0, events.drop_first()));
        let rest = asked(next.0, events.drop_first());
        assert forall|t: int| done <= t < replies.len() implies #[trigger] asked(run, events)[t
            - done] == RunView::proceed(repos, results.take(t + 1)).1 by {
            if t > done {
                assert(asked(run, events)[t - done] == rest[t - (done + 1)]);
            }
        }
    }
}

/// A run whose lookups all get an answer that is not fatal asks for the
/// release of each repository in the order of the listing, once, and then
/// emits the report of what the lookups gave.
pub proof fn lemma_run_to_the_end(repos: Seq<StarredRepoView>, replies: Seq<ReplyView>)
    requires
        replies.len() == repos.len(),
        forall|i: int| 0 <= i < replies.len() ==> !(#[trigger] replies[i]).fatal(),
    ensures
        ({
            let trace = asked(RunView::initial(), events_of(repos, replies));
            &&& trace.len() == repos.len() + 1
            &&& forall|i: int| 0 <= i < repos.len() ==> #[trigger] trace[i] == look_up(repos[i])
            &&& trace[repos.len() as int] == ActionView::Emit {
                report: report_of(results_of(repos, replies)),
            }
            &&& after(RunView::initial(), events_of(repos, replies)) == RunView::bare(Phase::Finished)
        }),
{
    let results = results_of(repos, replies);
    let listed = seq![EventView::Listed(repos)];
    let start = RunView::initial();
    let first = RunView::proceed(repos, Seq::empty());
    lemma_after_one(start, EventView::Listed(repos));
    lemma_after_both(start, listed, replied(replies));
    let trace = asked(start, events_of(repos, replies));
    if repos.len() == 0 {
        assert(replied(replies) =~= Seq::<EventView>::empty());
        assert(results =~= Seq::<Option<LatestReleaseView>>::empty());
        assert(trace =~= seq![first.1]);
    } else {
        assert(results.take(0) =~= Seq::<Option<LatestReleaseView>>::empty());
        assert(replies.skip(0) =~= replies);
        lemma_lookups(repos, replies, 0);
        let rest = asked(first.0, replied(replies));
        assert forall|i: int| 0 <= i < repos.len() implies #[trigger] trace[i] == look_up(
            repos[i],
        ) by {
            if i > 0 {
                assert(trace[i] == rest[(i - 1) - 0]);
                assert(results.take(i).len() == i);
            }
        }
        assert(trace[repos.len() as int] == rest[(repos.len() - 1) - 0]);
        assert(results.take(repos.len() as int) =~= results);
    }
}

/// A fatal reply ends the run at once: the lookups before it were asked
/// for, the run gives up with the error of that reply, and nothing is asked
/// for afterwards. No report is emitted, whatever was found before.
pub proof fn lemma_run_aborts(repos: Seq<StarredRepoView>, replies: Seq<ReplyView>, at: int)
    requires
        0 <= at < replies.len(),
        at < repos.len(),
        replies[at].fatal(),
        forall|i: int| 0 <= i < at ==> !(#[trigger] replies[i]).fatal(),
    ensures
        ({
            let trace = asked(RunView::initial(), events_of(repos, replies));
            &&& trace.len() == replies.len() + 1
            &&& forall|i: int| 0 <= i <= at ==> #[trigger] trace[i] == look_up(repos[i])
            &&& replies[at].resolved(repos[at].full_name) is Err
            &&& trace[at + 1] == ActionView::Abort {
                error: replies[at].resolved(repos[at].full_name)->Err_0,
            }
            &&& forall|i: int| at + 1 < i < trace.len() ==> #[trigger] trace[i] == ActionView::Idle
            &&& forall|i: int| 0 <= i < trace.len() ==> !(#[trigger] trace[i] is Emit)
            &&& after(RunView::initial(), events_of(repos, replies)) == RunView::bare(Phase::Aborted)
        }),
{
    let before = replies.take(at);
    let results = results_of(repos, before);
    let listed = seq![EventView::Listed(repos)];
    let fatal = seq![EventView::Replied(replies[at])];
    let behind = replied(replies.skip(at + 1));
    let start = RunView::initial();
    let first = RunView::proceed(repos, Seq::empty());
    let waiting = RunView { phase: Phase::Resolving, repos, results };
    let ended = RunView::bare(Phase::Aborted);
    let error = replies[at].resolved(repos[at].full_name)->Err_0;

    lemma_after_one(start, EventView::Listed(repos));

    assert(results.take(0) =~= Seq::<Option<LatestReleaseView>>::empty());
    assert(before.skip(0) =~= before);
    assert(results.take(at) =~= results);
    lemma_lookups(repos, before, 0);
    let early = asked(first.0, replied(before));
    assert(after(first.0, replied(before)) == waiting);

    lemma_after_one(waiting, EventView::Replied(replies[at]));
    assert(waiting.step(EventView::Replied(replies[at])) == (ended, ActionView::Abort { error }));
    lemma_over_stays(ended, behind);

    let tail = fatal + behind;
    lemma_after_both(waiting, fatal, behind);
    lemma_after_both(first.0, replied(before), tail);
    lemma_after_both(start, listed, replied(before) + tail);
    assert(events_of(repos, replies) =~= listed + (replied(before) + tail));

    let trace = asked(start, events_of(repos, replies));
    assert(trace =~= seq![first.1] + (early + (seq![ActionView::Abort { error }] + asked(
        ended,
        behind,
    ))));
    assert forall|i: int| 0 <= i <= at implies #[trigger] trace[i] == look_up(repos[i]) by {
        if i > 0 {
            assert(trace[i] == early[(i - 1) - 0]);
            assert(results.take(i).len() == i);
        }
    }
    assert forall|i: int| at + 1 < i < trace.len() implies #[trigger] trace[i]
        == ActionView::Idle by {
        assert(trace[i] == asked(ended, behind)[i - at - 2]);
    }
}

/// Where the listing fails the run gives up with its error, and asks for
/// no lookup.
pub proof fn lemma_listing_failed(error: FetchError, events: Seq<EventView>)
    ensures
        ({
            let trace = asked(
                RunView::initial(),
                seq![EventView::ListingFailed(error)] + events,
            );
            &&& trace.len() == events.len() + 1
            &&& trace[0] == ActionView::Abort { error }
            &&& forall|i: int| 0 < i < trace.len() ==> #[trigger] trace[i] == ActionView::Idle
        }),
{
    let failed = seq![EventView::ListingFailed(error)];
    let start = RunView::initial();
    let ended = RunView::bare(Phase::Aborted);
    lemma_after_one(start, EventView::ListingFailed(error));
    lemma_after_both(start, failed, events);
    lemma_over_stays(ended, events);
}

/// Where nothing is starred the report is empty and is emitted at once: no
/// release is looked up, then or later.
pub proof fn lemma_nothing_starred(events: Seq<EventView>)
    ensures
        ({
            let trace = asked(
                RunView::initial(),
                seq![EventView::Listed(Seq::empty())] + events,
            );
            &&& trace.len() == events.len() + 1
            &&& trace[0] == ActionView::Emit { report: Seq::empty() }
            &&& forall|i: int| 0 < i < trace.len() ==> #[trigger] trace[i] == ActionView::Idle
            &&& forall|i: int| 0 <= i < trace.len() ==> !(#[trigger] trace[i] is LookUp)
        }),
{
    let listed = seq![EventView::Listed(Seq::empty())];
    let start = RunView::initial();
    let ended = RunView::bare(Phase::Finished);
    let nothing = Seq::<Option<LatestReleaseView>>::empty();
    lemma_report_of_nothing(nothing);
    lemma_after_one(start, EventView::Listed(Seq::empty()));
    assert(start.step(EventView::Listed(Seq::empty())) == (
        ended,
        ActionView::Emit { report: Seq::empty() },
    ));
    lemma_after_both(start, listed, events);
    lemma_over_stays(ended, events);
}

/// `reply` is a success that holds the release which, paired with `repo`,
/// is `entry`.
pub open spec fn gave(reply: ReplyView, repo: StarredRepoView, entry: LatestReleaseView) -> bool {
    reply matches ReplyView::Answer { status, release: Some(found) } && status != NOT_FOUND
        && is_success(status) && found.of_repo(repo.full_name) == entry
}

/// Some lookup of the run gave `entry`.
pub open spec fn looked_up(
    repos: Seq<StarredRepoView>,
    replies: Seq<ReplyView>,
    entry: LatestReleaseView,
) -> bool {
    exists|i: int| 0 <= i < replies.len() && #[trigger] gave(replies[i], repos[i], entry)
}

/// Every entry of the report of a run is the release that a successful
/// lookup gave for its repository: no entry stands for a repository whose
/// lookup answered "not found".
pub proof fn lemma_report_has_only_releases(repos: Seq<StarredRepoView>, replies: Seq<ReplyView>)
    requires
        replies.len() == repos.len(),
    ensures
        forall|k: int|
            0 <= k < report_of(results_of(repos, replies)).len() ==> looked_up(
                repos,
                replies,
                #[trigger] report_of(results_of(repos, replies))[k],
            ),
{
    let results = results_of(repos, replies);
    let report = report_of(results);
    lemma_report_holds_what_was_found(results);
    assert forall|k: int| 0 <= k < report.len() implies looked_up(
        repos,
        replies,
        #[trigger] report[k],
    ) by {
        assert(results.contains(Some(report[k])));
        let i = choose|i: int| 0 <= i < results.len() && results[i] == Some(report[k]);
        assert(replies[i].resolved(repos[i].full_name) == Ok::<
            Option<LatestReleaseView>,
            FetchError,
        >(Some(report[k])));
        assert(gave(replies[i], repos[i], report[k]));
    }
}

/// Where every lookup answers "not found" the report is empty.
pub proof fn lemma_no_release_anywhere(repos: Seq<StarredRepoView>, replies: Seq<ReplyView>)
    requires
        replies.len() == repos.len(),
        forall|i: int|
            0 <= i < replies.len() ==> (#[trigger] replies[i] matches ReplyView::Answer {
                status,
                ..
            } && status == NOT_FOUND),
    ensures
        report_of(results_of(repos, replies)) == Seq::<LatestReleaseView>::empty(),
        asked(RunView::initial(), events_of(repos, replies))[repos.len() as int]
            == (ActionView::Emit { report: Seq::empty() }),
{
    let results = results_of(repos, replies);
    assert forall|i: int| 0 <= i < results.len() implies (#[trigger] results[i]) is None by {
        assert(replies[i] is Answer);
    }
    lemma_report_of_nothing(results);
    assert forall|i: int| 0 <= i < replies.len() implies !(#[trigger] replies[i]).fatal() by {
        assert(replies[i] is Answer);
    }
    lemma_run_to_the_end(repos, replies);
}

} // verus!
