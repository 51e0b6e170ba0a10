//! The report as text.

use crate::model::LatestRelease;
use crate::model::LatestReleaseView;
use vstd::prelude::*;
use vstd::string::StringExecFns;

verus! {

/// What introduces the version of an entry.
pub const VERSION_LABEL: &'static str = "\n   - Version : ";

/// What introduces the publication date of an entry.
pub const DATE_LABEL: &'static str = "\n   - Date : ";

/// What introduces the address of an entry's page.
pub const PAGE_LABEL: &'static str = "\n   - ";

/// The end of a line.
pub const LINE_END: &'static str = "\n";

/// One entry as text: the repository, then its version, the day, month and
/// year of publication and the address of the release's page, each on a
/// line of its own, and an empty line.
pub open spec fn entry_text(entry: LatestReleaseView) -> Seq<char> {
    entry.repo + VERSION_LABEL@ + entry.version + DATE_LABEL@
        + entry.published_at.day_month_year() + PAGE_LABEL@ + entry.html_url + LINE_END@
}

/// The entries of a report as one text, in their order, each ended by a
/// line end.
pub open spec fn report_text(report: Seq<LatestReleaseView>) -> Seq<char>
    decreases report.len(),
{
    if report.len() == 0 {
        Seq::empty()
    } else {
        report_text(report.drop_last()) + entry_text(report.last()) + LINE_END@
    }
}

/// Writes one entry of the report.
pub fn render_entry(entry: &LatestRelease) -> (text: String)
    ensures
        text@ == entry_text(entry@),
{
    let mut text = entry.repo.clone();
    text.append(VERSION_LABEL);
    text.append(entry.version.as_str());
    text.append(DATE_LABEL);
    let date = entry.published_at.day_month_year();
    text.append(date.as_str());
    text.append(PAGE_LABEL);
    text.append(entry.html_url.as_str());
    text.append(LINE_END);
    text
}

/// Writes the report, entry after entry.
pub fn render_report(report: &Vec<LatestRelease>) -> (text: String)
    ensures
        text@ == report_text(report.deep_view()),
{
    let mut text = String::new();
    let mut done: usize = 0;
    assert(report.deep_view().subrange(0, 0) =~= Seq::empty());
    while done < report.len()
        invariant
            done <= report.len(),
            text@ == report_text(report.deep_view().subrange(0, done as int)),
        decreases report.len() - done,
    {
        let entry = render_entry(&report[done]);
        text.append(entry.as_str());
        text.append(LINE_END);
        proof {
            let upto = report.deep_view().subrange(0, done + 1);
            assert(upto.drop_last() =~= report.deep_view().subrange(0, done as int));
            assert(upto.last() == report@[done as int]@);
        }
        done = done + 1;
    }
    assert(report.deep_view().subrange(0, done as int) =~= report.deep_view());
    text
}

} // verus!
