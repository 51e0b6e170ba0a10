//! The run as a machine: it asks for one request at a time, takes what
//! came back and says what to do next, until it hands out the report or
//! gives up.

use crate::client::latest_release_url;
use crate::client::release_address;
use crate::client::STARRED_URL;
use crate::model::FetchError;
use crate::model::LatestRelease;
use crate::model::LatestReleaseView;
use crate::model::StarredRepo;
use crate::model::StarredRepoView;
use crate::report::build_report;
use crate::report::report_of;
use crate::resolve::resolve_latest_release;
use crate::resolve::Reply;
use crate::resolve::ReplyView;
use vstd::prelude::*;
use vstd::string::StringExecFns;

verus! {

/// Where a run stands.
#[derive(Clone, Copy, Debug, PartialEq, Eq, Structural)]
pub enum Phase {
    /// The list of starred repositories has been asked for.
    Listing,
    /// The latest release of one repository has been asked for.
    Resolving,
    /// The report has been handed out.
    Finished,
    /// The run has given up.
    Aborted,
}

/// What the outside reports back to a run.
#[derive(Clone, Debug, PartialEq, Eq)]
pub enum Event {
    /// The starred repositories, in the order of the listing.
    Listed(Vec<StarredRepo>),
    /// The listing could not be had.
    ListingFailed(FetchError),
    /// The reply to the release lookup that was asked for last.
    Replied(Reply),
}

/// An event as contracts see it.
pub enum EventView {
    Listed(Seq<StarredRepoView>),
    ListingFailed(FetchError),
    Replied(ReplyView),
}

impl View for Event {
    type V = EventView;

    open spec fn view(&self) -> EventView {
        match self {
            Event::Listed(repos) => EventView::Listed(repos.deep_view()),
            Event::ListingFailed(error) => EventView::ListingFailed(*error),
            Event::Replied(reply) => EventView::Replied(reply@),
        }
    }
}

/// What a run asks of the outside.
#[derive(Clone, Debug, PartialEq, Eq)]
pub enum Action {
    /// Get the list of starred repositories from `url`.
    ListStarred { url: String },
    /// Get the latest release of one repository from `url`.
    LookUp { url: String },
    /// Emit the report. The run is over.
    Emit { report: Vec<LatestRelease> },
    /// Give up with `error`. The run is over and has no report.
    Abort { error: FetchError },
    /// Nothing: the run did not wait for the event.
    Idle,
}

/// An action as contracts see it.
pub enum ActionView {
    ListStarred { url: Seq<char> },
    LookUp { url: Seq<char> },
    Emit { report: Seq<LatestReleaseView> },
    Abort { error: FetchError },
    Idle,
}

impl View for Action {
    type V = ActionView;

    open spec fn view(&self) -> ActionView {
        match self {
            Action::ListStarred { url } => ActionView::ListStarred { url: url@ },
            Action::LookUp { url } => ActionView::LookUp { url: url@ },
            Action::Emit { report } => ActionView::Emit { report: report.deep_view() },
            Action::Abort { error } => ActionView::Abort { error: *error },
            Action::Idle => ActionView::Idle,
        }
    }
}

/// A run as contracts see it.
pub struct RunView {
    pub phase: Phase,
    /// The starred repositories, once they are known.
    pub repos: Seq<StarredRepoView>,
    /// What the lookups gave so far, one result for each of the first
    /// repositories.
    pub results: Seq<Option<LatestReleaseView>>,
}

impl RunView {
    /// A run in `phase` that holds neither repositories nor results.
    pub open spec fn bare(phase: Phase) -> RunView {
        RunView { phase, repos: Seq::empty(), results: Seq::empty() }
    }

    /// A run that has asked for the listing.
    pub open spec fn initial() -> RunView {
        RunView::bare(Phase::Listing)
    }

    /// The run is over.
    pub open spec fn over(self) -> bool {
        self.phase == Phase::Finished || self.phase == Phase::Aborted
    }

    /// While it resolves, a run waits for the release of the repository
    /// behind those that have a result; otherwise it holds nothing.
    pub open spec fn wf(self) -> bool {
        if self.phase == Phase::Resolving {
            self.results.len() < self.repos.len()
        } else {
            self.repos.len() == 0 && self.results.len() == 0
        }
    }

    /// How a run goes on with `results` in hand: with the lookup for the
    /// next repository, or, after the last, with the report.
    pub open spec fn proceed(
        repos: Seq<StarredRepoView>,
        results: Seq<Option<LatestReleaseView>>,
    ) -> (RunView, ActionView) {
        if results.len() < repos.len() {
            (
                RunView { phase: Phase::Resolving, repos, results },
                ActionView::LookUp { url: release_address(repos[results.len() as int].full_name) },
            )
        } else {
            (RunView::bare(Phase::Finished), ActionView::Emit { report: report_of(results) })
        }
    }

    /// The run after `event`, and what it asks for.
    pub open spec fn step(self, event: EventView) -> (RunView, ActionView) {
        match (self.phase, event) {
            (Phase::Listing, EventView::Listed(repos)) => RunView::proceed(repos, Seq::empty()),
            (Phase::Listing, EventView::ListingFailed(error)) => (
                RunView::bare(Phase::Aborted),
                ActionView::Abort { error },
            ),
            (Phase::Resolving, EventView::Replied(reply)) => match reply.resolved(
                self.repos[self.results.len() as int].full_name,
            ) {
                Ok(found) => RunView::proceed(self.repos, self.results.push(found)),
                Err(error) => (RunView::bare(Phase::Aborted), ActionView::Abort { error }),
            },
            _ => (self, ActionView::Idle),
        }
    }
}

/// One run over the starred repositories.
#[derive(Debug)]
pub struct Run {
    phase: Phase,
    repos: Vec<StarredRepo>,
    results: Vec<Option<LatestRelease>>,
}

impl View for Run {
    type V = RunView;

    closed spec fn view(&self) -> RunView {
        RunView {
            phase: self.phase,
            repos: self.repos.deep_view(),
            results: self.results.deep_view(),
        }
    }
}

impl Run {
    #[verifier::type_invariant]
    spec fn well_formed(self) -> bool {
        self@.wf()
    }

    fn bare(phase: Phase) -> (run: Run)
        requires
            phase != Phase::Resolving,
        ensures
            run@ == RunView::bare(phase),
    {
        let run = Run { phase, repos: Vec::new(), results: Vec::new() };
        assert(run.repos.deep_view() =~= Seq::empty());
        assert(run.results.deep_view() =~= Seq::empty());
        run
    }

    fn proceed(repos: Vec<StarredRepo>, results: Vec<Option<LatestRelease>>) -> (next: (
        Run,
        Action,
    ))
        requires
            results.len() <= repos.len(),
        ensures
            (next.0@, next.1@) == RunView::proceed(repos.deep_view(), results.deep_view()),
    {
        if results.len() < repos.len() {
            let url = latest_release_url(repos[results.len()].full_name.as_str());
            (Run { phase: Phase::Resolving, repos, results }, Action::LookUp { url })
        } else {
            (Run::bare(Phase::Finished), Action::Emit { report: build_report(results) })
        }
    }

    /// Starts a run: it asks for the list of starred repositories.
    pub fn start() -> (first: (Run, Action))
        ensures
            first.0@ == RunView::initial(),
            first.1@ == (ActionView::ListStarred { url: STARRED_URL@ }),
    {
        (Run::bare(Phase::Listing), Action::ListStarred { url: String::from_str(STARRED_URL) })
    }

    /// Where the run stands.
    pub fn phase(&self) -> (phase: Phase)
        ensures
            phase == self@.phase,
    {
        self.phase
    }

    /// Whether the run is over.
    pub fn is_over(&self) -> (over: bool)
        ensures
            over == self@.over(),
    {
        match self.phase {
            Phase::Finished => true,
            Phase::Aborted => true,
            _ => false,
        }
    }

    /// Takes what came back and says what to do next.
    ///
    /// The listing is followed by the lookup for the first repository, and
    /// each reply by the lookup for the next; a repository without a
    /// release is passed over. After the last reply the report is emitted.
    /// An error ends the run at once, whatever was found before it. An
    /// event that the run does not wait for changes nothing.
    pub fn step(self, event: Event) -> (next: (Run, Action))
        ensures
            (next.0@, next.1@) == self@.step(event@),
            next.0@.wf(),
    {
        proof {
            use_type_invariant(&self);
        }
        match (self.phase, event) {
            (Phase::Listing, Event::Listed(repos)) => {
                let results: Vec<Option<LatestRelease>> = Vec::new();
                assert(results.deep_view() =~= Seq::empty());
                Run::proceed(repos, results)
            },
            (Phase::Listing, Event::ListingFailed(error)) => (
                Run::bare(Phase::Aborted),
                Action::Abort { error },
            ),
            (Phase::Resolving, Event::Replied(reply)) => {
                let at = self.results.len();
                assert(self.repos.deep_view()[at as int] == self.repos@[at as int]@);
                match resolve_latest_release(self.repos[at].full_name.as_str(), reply) {
                    Ok(found) => {
                        let Run { phase: _, repos, results } = self;
                        let mut results = results;
                        let ghost before = results.deep_view();
                        results.push(found);
                        assert(results.deep_view() =~= before.push(found.deep_view()));
                        Run::proceed(repos, results)
                    },
                    Err(error) => (Run::bare(Phase::Aborted), Action::Abort { error }),
                }
            },
            (_, _) => (self, Action::Idle),
        }
    }
}

} // verus!
