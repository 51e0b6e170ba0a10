//! Reading the answer to one release lookup: a release, no release, or the
//! end of the run.

use crate::model::FetchError;
use crate::model::LatestRelease;
use crate::model::LatestReleaseView;
use crate::model::Release;
use crate::model::ReleaseView;
use vstd::prelude::*;

verus! {

/// The status with which the platform says that a repository has no
/// release.
pub const NOT_FOUND: u16 = 404;

/// Whether `status` reports success.
pub open spec fn is_success(status: u16) -> bool {
    200 <= status < 300
}

/// Whether a response of this status carries a release to read.
pub fn expects_body(status: u16) -> (wanted: bool)
    ensures
        wanted == is_success(status),
{
    200 <= status && status < 300
}

/// What came back from one release lookup.
#[derive(Clone, Debug, PartialEq, Eq)]
pub enum Reply {
    /// No response could be had.
    Failed,
    /// A response of this status, with the release that its body describes
    /// where a body was read and had the expected shape.
    Answer { status: u16, release: Option<Release> },
}

/// A reply as contracts see it.
pub enum ReplyView {
    Failed,
    Answer { status: u16, release: Option<ReleaseView> },
}

impl View for Reply {
    type V = ReplyView;

    open spec fn view(&self) -> ReplyView {
        match self {
            Reply::Failed => ReplyView::Failed,
            Reply::Answer { status, release } => ReplyView::Answer {
                status: *status,
                release: release.deep_view(),
            },
        }
    }
}

impl ReplyView {
    /// What the reply means for the repository `full_name`: its latest
    /// release, `None` where it has none, or the error that ends the run.
    pub open spec fn resolved(self, full_name: Seq<char>) -> Result<
        Option<LatestReleaseView>,
        FetchError,
    > {
        match self {
            ReplyView::Failed => Err(FetchError::Transport),
            ReplyView::Answer { status, release } => if status == NOT_FOUND {
                Ok(None)
            } else if is_success(status) {
                match release {
                    Some(found) => Ok(Some(found.of_repo(full_name))),
                    None => Err(FetchError::Decode),
                }
            } else {
                Err(FetchError::Status(status))
            },
        }
    }

    /// The reply ends the run.
    pub open spec fn fatal(self) -> bool {
        self.resolved(Seq::empty()) is Err
    }
}

/// Reads the reply to the lookup of the latest release of `full_name`.
/// "Not found" means that the repository has no release, which is no
/// error; a success gives the release of its body, paired with the
/// repository; anything else ends the run.
pub fn resolve_latest_release(full_name: &str, reply: Reply) -> (resolved: Result<
    Option<LatestRelease>,
    FetchError,
>)
    ensures
        match resolved {
            Ok(found) => reply@.resolved(full_name@) == Ok::<Option<LatestReleaseView>, FetchError>(
                found.deep_view(),
            ),
            Err(error) => reply@.resolved(full_name@) == Err::<
                Option<LatestReleaseView>,
                FetchError,
            >(error),
        },
{
    match reply {
        Reply::Failed => Err(FetchError::Transport),
        Reply::Answer { status, release } => {
            if status == NOT_FOUND {
                Ok(None)
            } else if expects_body(status) {
                match release {
                    Some(found) => Ok(Some(LatestRelease::of_repo(full_name, found))),
                    None => Err(FetchError::Decode),
                }
            } else {
                Err(FetchError::Status(status))
            }
        },
    }
}

} // verus!
