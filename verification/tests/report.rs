use recent_releases::model::LatestRelease;
use recent_releases::report::build_report;
use recent_releases::report::place;
use recent_releases::timestamp::Timestamp;

fn entry(repo: &str, seconds: i64, nanos: u32) -> LatestRelease {
    LatestRelease {
        repo: repo.to_string(),
        version: format!("v-{}", repo),
        published_at: Timestamp::new(seconds, nanos).unwrap(),
        html_url: format!("https://example.org/{}", repo),
    }
}

fn names(report: &Vec<LatestRelease>) -> Vec<String> {
    let mut names = Vec::new();
    for entry in report {
        names.push(entry.repo.clone());
    }
    names
}

#[test]
fn report_of_nothing_is_empty() {
    assert_eq!(build_report(Vec::new()), Vec::new());
}

#[test]
fn report_without_any_release_is_empty() {
    assert_eq!(build_report(vec![None, None, None]), Vec::new());
}

#[test]
fn report_of_one_release_is_that_release() {
    let report = build_report(vec![None, Some(entry("a", 10, 0)), None]);
    assert_eq!(report, vec![entry("a", 10, 0)]);
}

#[test]
fn report_puts_the_newest_first() {
    let report = build_report(vec![
        Some(entry("a", 1672531200, 0)),
        None,
        Some(entry("c", 1718409600, 0)),
    ]);
    assert_eq!(report, vec![entry("c", 1718409600, 0), entry("a", 1672531200, 0)]);
}

#[test]
fn report_holds_each_release_with_distinct_times_once_and_descending() {
    let results = vec![
        Some(entry("a", 300, 0)),
        None,
        Some(entry("b", 100, 0)),
        Some(entry("c", 500, 0)),
        None,
        Some(entry("d", 200, 0)),
        Some(entry("e", 400, 0)),
    ];
    let report = build_report(results);
    assert_eq!(
        report,
        vec![
            entry("c", 500, 0),
            entry("e", 400, 0),
            entry("a", 300, 0),
            entry("d", 200, 0),
            entry("b", 100, 0),
        ]
    );
    for pair in report.windows(2) {
        assert!(pair[0].published_at.is_after(&pair[1].published_at));
    }
}

#[test]
fn report_orders_by_nanoseconds_within_a_second() {
    let report = build_report(vec![
        Some(entry("a", 7, 1)),
        Some(entry("b", 7, 3)),
        Some(entry("c", 7, 2)),
        Some(entry("d", 6, 999_999_999)),
    ]);
    assert_eq!(names(&report), vec!["b", "c", "a", "d"]);
}

#[test]
fn report_keeps_releases_of_one_time_in_their_order() {
    let report = build_report(vec![
        Some(entry("first", 50, 0)),
        Some(entry("newer", 60, 0)),
        Some(entry("second", 50, 0)),
        None,
        Some(entry("third", 50, 0)),
        Some(entry("older", 40, 0)),
    ]);
    assert_eq!(names(&report), vec!["newer", "first", "second", "third", "older"]);
}

#[test]
fn report_never_puts_an_older_release_before_a_newer_one() {
    let mut results = Vec::new();
    let mut seed: i64 = 17;
    for i in 0..40 {
        seed = (seed * 7919 + 13) % 1009;
        if seed % 3 == 0 {
            results.push(None);
        } else {
            results.push(Some(entry(&format!("r{}", i), seed % 20, 0)));
        }
    }
    let found = results.iter().filter(|r| r.is_some()).count();
    let report = build_report(results.clone());
    assert_eq!(report.len(), found);
    for pair in report.windows(2) {
        assert!(!pair[1].published_at.is_after(&pair[0].published_at));
    }
    for entry in &report {
        assert!(results.contains(&Some(entry.clone())));
    }
    for result in results.iter().flatten() {
        assert!(report.contains(result));
    }
}

#[test]
fn place_puts_an_entry_before_those_of_its_time() {
    let mut report = vec![entry("x", 30, 0), entry("y", 20, 0), entry("z", 10, 0)];
    place(&mut report, entry("w", 20, 0));
    assert_eq!(names(&report), vec!["x", "w", "y", "z"]);
}

#[test]
fn place_at_either_end() {
    let mut report = vec![entry("x", 30, 0), entry("y", 20, 0)];
    place(&mut report, entry("newest", 40, 0));
    place(&mut report, entry("oldest", 5, 0));
    assert_eq!(names(&report), vec!["newest", "x", "y", "oldest"]);
    let mut empty = Vec::new();
    place(&mut empty, entry("only", 1, 0));
    assert_eq!(names(&empty), vec!["only"]);
}
