//! The records that travel through a run, each with the view that contracts
//! speak of.

use crate::timestamp::parsed_instant;
use crate::timestamp::Instant;
use crate::timestamp::Timestamp;
use vstd::prelude::*;
use vstd::string::StringExecFns;

verus! {

/// Why a run ends without a report.
#[derive(Clone, Copy, Debug, PartialEq, Eq, Structural)]
pub enum FetchError {
    /// A request got no response, or the response could not be read.
    Transport,
    /// A response body did not have the expected shape.
    Decode,
    /// A release lookup answered with a status that is neither success nor
    /// "not found".
    Status(u16),
}

/// One starred repository, as the listing names it.
#[derive(Clone, Debug, PartialEq, Eq)]
pub struct StarredRepo {
    pub id: usize,
    pub node_id: String,
    pub name: String,
    /// The name in the form "owner/repo".
    pub full_name: String,
}

/// A starred repository as contracts see it.
pub struct StarredRepoView {
    pub id: nat,
    pub node_id: Seq<char>,
    pub name: Seq<char>,
    pub full_name: Seq<char>,
}

impl View for StarredRepo {
    type V = StarredRepoView;

    open spec fn view(&self) -> StarredRepoView {
        StarredRepoView {
            id: self.id as nat,
            node_id: self.node_id@,
            name: self.name@,
            full_name: self.full_name@,
        }
    }
}

impl DeepView for StarredRepo {
    type V = StarredRepoView;

    open spec fn deep_view(&self) -> StarredRepoView {
        self@
    }
}

/// The body of a "latest release" response with its fields as text, before
/// the publication time is read.
#[derive(Clone, Debug, PartialEq, Eq)]
pub struct ReleaseRecord {
    pub html_url: String,
    pub name: String,
    /// The publication time as an ISO 8601 timestamp with offset.
    pub published_at: String,
}

/// A release record as contracts see it.
pub struct ReleaseRecordView {
    pub html_url: Seq<char>,
    pub name: Seq<char>,
    pub published_at: Seq<char>,
}

impl View for ReleaseRecord {
    type V = ReleaseRecordView;

    open spec fn view(&self) -> ReleaseRecordView {
        ReleaseRecordView {
            html_url: self.html_url@,
            name: self.name@,
            published_at: self.published_at@,
        }
    }
}

/// The latest release of some repository.
#[derive(Clone, Debug, PartialEq, Eq)]
pub struct Release {
    pub html_url: String,
    pub name: String,
    pub published_at: Timestamp,
}

/// A release as contracts see it.
pub struct ReleaseView {
    pub html_url: Seq<char>,
    pub name: Seq<char>,
    pub published_at: Instant,
}

impl View for Release {
    type V = ReleaseView;

    open spec fn view(&self) -> ReleaseView {
        ReleaseView {
            html_url: self.html_url@,
            name: self.name@,
            published_at: self.published_at@,
        }
    }
}

impl DeepView for Release {
    type V = ReleaseView;

    open spec fn deep_view(&self) -> ReleaseView {
        self@
    }
}

impl ReleaseRecordView {
    /// What reading the record gives once its publication time has been
    /// read as `published_at`.
    pub open spec fn dated(self, published_at: Option<Instant>) -> Result<ReleaseView, FetchError> {
        match published_at {
            Some(instant) => Ok(
                ReleaseView { html_url: self.html_url, name: self.name, published_at: instant },
            ),
            None => Err(FetchError::Decode),
        }
    }

    /// What reading the record gives.
    pub open spec fn decoded(self) -> Result<ReleaseView, FetchError> {
        self.dated(
            match parsed_instant(self.published_at) {
                Some(pair) => Some(Instant { seconds: pair.0, nanos: pair.1 }),
                None => None,
            },
        )
    }
}

impl Release {
    /// The release of `record` published at `published_at`; a decode error
    /// where no publication time could be read.
    pub fn dated(record: ReleaseRecord, published_at: Option<Timestamp>) -> (read: Result<
        Release,
        FetchError,
    >)
        ensures
            match read {
                Ok(release) => record@.dated(published_at.deep_view()) == Ok::<
                    ReleaseView,
                    FetchError,
                >(release@),
                Err(error) => record@.dated(published_at.deep_view()) == Err::<
                    ReleaseView,
                    FetchError,
                >(error),
            },
    {
        match published_at {
            Some(instant) => Ok(
                Release { html_url: record.html_url, name: record.name, published_at: instant },
            ),
            None => Err(FetchError::Decode),
        }
    }

    /// Reads a record: the release it describes, or a decode error where
    /// its publication time is no timestamp.
    pub fn decode(record: ReleaseRecord) -> (read: Result<Release, FetchError>)
        ensures
            match read {
                Ok(release) => record@.decoded() == Ok::<ReleaseView, FetchError>(release@),
                Err(error) => record@.decoded() == Err::<ReleaseView, FetchError>(error),
            },
    {
        let published_at = Timestamp::parse(record.published_at.as_str());
        Release::dated(record, published_at)
    }
}

/// The latest release of one starred repository: an entry of the report.
#[derive(Clone, Debug, PartialEq, Eq)]
pub struct LatestRelease {
    /// The full name of the repository that the release belongs to.
    pub repo: String,
    pub version: String,
    pub published_at: Timestamp,
    pub html_url: String,
}

/// An entry of the report as contracts see it.
pub struct LatestReleaseView {
    pub repo: Seq<char>,
    pub version: Seq<char>,
    pub published_at: Instant,
    pub html_url: Seq<char>,
}

impl View for LatestRelease {
    type V = LatestReleaseView;

    open spec fn view(&self) -> LatestReleaseView {
        LatestReleaseView {
            repo: self.repo@,
            version: self.version@,
            published_at: self.published_at@,
            html_url: self.html_url@,
        }
    }
}

impl DeepView for LatestRelease {
    type V = LatestReleaseView;

    open spec fn deep_view(&self) -> LatestReleaseView {
        self@
    }
}

impl ReleaseView {
    /// The entry that pairs this release with the repository `full_name`.
    pub open spec fn of_repo(self, full_name: Seq<char>) -> LatestReleaseView {
        LatestReleaseView {
            repo: full_name,
            version: self.name,
            published_at: self.published_at,
            html_url: self.html_url,
        }
    }
}

impl LatestRelease {
    /// Pairs a release with the repository it belongs to.
    pub fn of_repo(full_name: &str, release: Release) -> (entry: LatestRelease)
        ensures
            entry@ == release@.of_repo(full_name@),
    {
        LatestRelease {
            repo: String::from_str(full_name),
            version: release.name,
            published_at: release.published_at,
            html_url: release.html_url,
        }
    }
}

} // verus!
