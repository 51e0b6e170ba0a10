use recent_releases::model::FetchError;
use recent_releases::model::LatestRelease;
use recent_releases::model::Release;
use recent_releases::model::ReleaseRecord;
use recent_releases::model::StarredRepo;
use recent_releases::pipeline::Action;
use recent_releases::pipeline::Event;
use recent_releases::pipeline::Phase;
use recent_releases::pipeline::Run;
use recent_releases::resolve::Reply;
use recent_releases::timestamp::Timestamp;

fn repo(id: usize, full_name: &str) -> StarredRepo {
    StarredRepo {
        id,
        node_id: format!("node-{}", id),
        name: full_name.rsplit('/').next().unwrap().to_string(),
        full_name: full_name.to_string(),
    }
}

fn found(full_name: &str, published_at: &str) -> Reply {
    let record = ReleaseRecord {
        html_url: format!("https://github.com/{}/releases/latest", full_name),
        name: format!("release of {}", full_name),
        published_at: published_at.to_string(),
    };
    Reply::Answer { status: 200, release: Release::decode(record).ok() }
}

fn not_found() -> Reply {
    Reply::Answer { status: 404, release: None }
}

fn entry(full_name: &str, published_at: &str) -> LatestRelease {
    LatestRelease {
        repo: full_name.to_string(),
        version: format!("release of {}", full_name),
        published_at: Timestamp::parse(published_at).unwrap(),
        html_url: format!("https://github.com/{}/releases/latest", full_name),
    }
}

fn look_up(full_name: &str) -> Action {
    Action::LookUp { url: format!("https://api.github.com/repos/{}/releases/latest", full_name) }
}

#[test]
fn a_run_starts_with_the_listing() {
    let (run, action) = Run::start();
    assert_eq!(run.phase(), Phase::Listing);
    assert!(!run.is_over());
    assert_eq!(
        action,
        Action::ListStarred { url: "https://api.github.com/user/starred?per_page=100".to_string() }
    );
}

#[test]
fn three_repositories_of_which_one_has_no_release() {
    let (run, _) = Run::start();
    let repos = vec![repo(1, "owner/a"), repo(2, "owner/b"), repo(3, "owner/c")];
    let (run, action) = run.step(Event::Listed(repos));
    assert_eq!(action, look_up("owner/a"));
    assert_eq!(run.phase(), Phase::Resolving);
    let (run, action) = run.step(Event::Replied(found("owner/a", "2023-01-01T00:00:00Z")));
    assert_eq!(action, look_up("owner/b"));
    let (run, action) = run.step(Event::Replied(not_found()));
    assert_eq!(action, look_up("owner/c"));
    assert!(!run.is_over());
    let (run, action) = run.step(Event::Replied(found("owner/c", "2024-06-15T00:00:00Z")));
    assert_eq!(
        action,
        Action::Emit {
            report: vec![
                entry("owner/c", "2024-06-15T00:00:00Z"),
                entry("owner/a", "2023-01-01T00:00:00Z"),
            ],
        }
    );
    assert_eq!(run.phase(), Phase::Finished);
    assert!(run.is_over());
}

#[test]
fn a_transport_failure_on_the_second_lookup_ends_the_run_without_a_report() {
    let (run, _) = Run::start();
    let repos = vec![repo(1, "owner/a"), repo(2, "owner/b"), repo(3, "owner/c")];
    let mut actions = Vec::new();
    let (run, action) = run.step(Event::Listed(repos));
    actions.push(action);
    let (run, action) = run.step(Event::Replied(found("owner/a", "2023-01-01T00:00:00Z")));
    actions.push(action);
    let (run, action) = run.step(Event::Replied(Reply::Failed));
    actions.push(action);
    assert_eq!(run.phase(), Phase::Aborted);
    assert!(run.is_over());
    let (run, action) = run.step(Event::Replied(found("owner/c", "2024-06-15T00:00:00Z")));
    actions.push(action);
    assert_eq!(run.phase(), Phase::Aborted);
    assert_eq!(
        actions,
        vec![
            look_up("owner/a"),
            look_up("owner/b"),
            Action::Abort { error: FetchError::Transport },
            Action::Idle,
        ]
    );
    for action in &actions {
        assert!(!matches!(action, Action::Emit { .. }));
    }
}

#[test]
fn nothing_starred_gives_an_empty_report_and_no_lookup() {
    let (run, _) = Run::start();
    let (run, action) = run.step(Event::Listed(Vec::new()));
    assert_eq!(action, Action::Emit { report: Vec::new() });
    assert_eq!(run.phase(), Phase::Finished);
    let (run, action) = run.step(Event::Replied(not_found()));
    assert_eq!(action, Action::Idle);
    assert_eq!(run.phase(), Phase::Finished);
}

#[test]
fn no_release_anywhere_gives_an_empty_report() {
    let (run, _) = Run::start();
    let repos = vec![repo(1, "owner/a"), repo(2, "owner/b"), repo(3, "owner/c")];
    let (run, action) = run.step(Event::Listed(repos));
    assert_eq!(action, look_up("owner/a"));
    let (run, action) = run.step(Event::Replied(not_found()));
    assert_eq!(action, look_up("owner/b"));
    let (run, action) = run.step(Event::Replied(not_found()));
    assert_eq!(action, look_up("owner/c"));
    let (run, action) = run.step(Event::Replied(not_found()));
    assert_eq!(action, Action::Emit { report: Vec::new() });
    assert!(run.is_over());
}

#[test]
fn known_times_come_back_in_descending_order() {
    let names = ["o/r0", "o/r1", "o/r2", "o/r3", "o/r4", "o/r5"];
    let times = [
        Some("2021-03-04T05:06:07Z"),
        None,
        Some("2024-01-01T00:00:00Z"),
        Some("2019-07-20T20:17:40Z"),
        None,
        Some("2022-12-31T23:59:59Z"),
    ];
    let mut repos = Vec::new();
    for (id, name) in names.iter().enumerate() {
        repos.push(repo(id, name));
    }
    let (mut run, mut action) = Run::start().0.step(Event::Listed(repos));
    for (i, time) in times.iter().enumerate() {
        assert_eq!(action, look_up(names[i]));
        let reply = match time {
            Some(time) => found(names[i], time),
            None => not_found(),
        };
        let next = run.step(Event::Replied(reply));
        run = next.0;
        action = next.1;
    }
    assert!(run.is_over());
    assert_eq!(
        action,
        Action::Emit {
            report: vec![
                entry("o/r2", "2024-01-01T00:00:00Z"),
                entry("o/r5", "2022-12-31T23:59:59Z"),
                entry("o/r0", "2021-03-04T05:06:07Z"),
                entry("o/r3", "2019-07-20T20:17:40Z"),
            ],
        }
    );
}

#[test]
fn a_failed_listing_ends_the_run() {
    let (run, _) = Run::start();
    let (run, action) = run.step(Event::ListingFailed(FetchError::Decode));
    assert_eq!(action, Action::Abort { error: FetchError::Decode });
    assert_eq!(run.phase(), Phase::Aborted);
    let (run, _) = Run::start().0.step(Event::ListingFailed(FetchError::Transport));
    assert!(run.is_over());
}

#[test]
fn a_malformed_body_ends_the_run() {
    let (run, _) = Run::start().0.step(Event::Listed(vec![repo(1, "owner/a"), repo(2, "owner/b")]));
    let (run, action) = run.step(Event::Replied(found("owner/a", "no time at all")));
    assert_eq!(action, Action::Abort { error: FetchError::Decode });
    assert_eq!(run.phase(), Phase::Aborted);
}

#[test]
fn an_unexpected_status_ends_the_run() {
    let (run, _) = Run::start().0.step(Event::Listed(vec![repo(1, "owner/a")]));
    let (run, action) = run.step(Event::Replied(Reply::Answer { status: 503, release: None }));
    assert_eq!(action, Action::Abort { error: FetchError::Status(503) });
    assert!(run.is_over());
}

#[test]
fn an_event_out_of_turn_changes_nothing() {
    let (run, _) = Run::start();
    let (run, action) = run.step(Event::Replied(not_found()));
    assert_eq!(action, Action::Idle);
    assert_eq!(run.phase(), Phase::Listing);
    let (run, action) = run.step(Event::Listed(vec![repo(1, "owner/a")]));
    assert_eq!(action, look_up("owner/a"));
    let (run, action) = run.step(Event::Listed(vec![repo(2, "owner/b")]));
    assert_eq!(action, Action::Idle);
    assert_eq!(run.phase(), Phase::Resolving);
    let (run, action) = run.step(Event::ListingFailed(FetchError::Transport));
    assert_eq!(action, Action::Idle);
    let (run, action) = run.step(Event::Replied(found("owner/a", "2020-01-01T00:00:00Z")));
    assert_eq!(action, Action::Emit { report: vec![entry("owner/a", "2020-01-01T00:00:00Z")] });
    assert!(run.is_over());
}
