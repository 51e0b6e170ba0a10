use recent_releases::model::FetchError;
use recent_releases::model::LatestRelease;
use recent_releases::model::Release;
use recent_releases::resolve::expects_body;
use recent_releases::resolve::resolve_latest_release;
use recent_releases::resolve::Reply;
use recent_releases::resolve::NOT_FOUND;
use recent_releases::timestamp::Timestamp;

fn release(seconds: i64) -> Release {
    Release {
        html_url: "https://example.org/release".to_string(),
        name: "v2".to_string(),
        published_at: Timestamp::new(seconds, 0).unwrap(),
    }
}

#[test]
fn not_found_is_four_hundred_and_four() {
    assert_eq!(NOT_FOUND, 404);
}

#[test]
fn expects_body_of_a_success_only() {
    assert!(expects_body(200));
    assert!(expects_body(204));
    assert!(expects_body(299));
    assert!(!expects_body(199));
    assert!(!expects_body(300));
    assert!(!expects_body(404));
    assert!(!expects_body(500));
    assert!(!expects_body(0));
    assert!(!expects_body(u16::MAX));
}

#[test]
fn not_found_means_no_release() {
    let reply = Reply::Answer { status: 404, release: None };
    assert_eq!(resolve_latest_release("owner/b", reply), Ok(None));
}

#[test]
fn not_found_passes_over_a_body() {
    let reply = Reply::Answer { status: 404, release: Some(release(5)) };
    assert_eq!(resolve_latest_release("owner/b", reply), Ok(None));
}

#[test]
fn success_gives_the_release_of_the_repository() {
    let reply = Reply::Answer { status: 200, release: Some(release(1672531200)) };
    let expected = LatestRelease {
        repo: "owner/a".to_string(),
        version: "v2".to_string(),
        published_at: Timestamp::new(1672531200, 0).unwrap(),
        html_url: "https://example.org/release".to_string(),
    };
    assert_eq!(resolve_latest_release("owner/a", reply), Ok(Some(expected)));
}

#[test]
fn success_without_a_readable_body_is_a_decode_error() {
    let reply = Reply::Answer { status: 200, release: None };
    assert_eq!(resolve_latest_release("owner/a", reply), Err(FetchError::Decode));
}

#[test]
fn no_response_is_a_transport_error() {
    assert_eq!(resolve_latest_release("owner/a", Reply::Failed), Err(FetchError::Transport));
}

#[test]
fn another_status_ends_the_run() {
    let refused = Reply::Answer { status: 403, release: None };
    assert_eq!(resolve_latest_release("owner/a", refused), Err(FetchError::Status(403)));
    let broken = Reply::Answer { status: 500, release: Some(release(5)) };
    assert_eq!(resolve_latest_release("owner/a", broken), Err(FetchError::Status(500)));
    let moved = Reply::Answer { status: 301, release: None };
    assert_eq!(resolve_latest_release("owner/a", moved), Err(FetchError::Status(301)));
}
