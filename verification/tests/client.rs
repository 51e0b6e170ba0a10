use recent_releases::client::authorization;
use recent_releases::client::latest_release_url;
use recent_releases::client::request_headers;
use recent_releases::client::trim;
use recent_releases::client::Header;
use recent_releases::client::STARRED_URL;

#[test]
fn starred_url_asks_for_one_page_of_a_hundred() {
    assert_eq!(STARRED_URL, "https://api.github.com/user/starred?per_page=100");
}

#[test]
fn latest_release_url_holds_the_full_name() {
    assert_eq!(
        latest_release_url("owner/repo"),
        "https://api.github.com/repos/owner/repo/releases/latest"
    );
    assert_eq!(latest_release_url(""), "https://api.github.com/repos//releases/latest");
}

#[test]
fn trim_removes_the_white_space_around() {
    assert_eq!(trim("  token \n"), "token");
    assert_eq!(trim("\ttoken"), "token");
    assert_eq!(trim("token"), "token");
}

#[test]
fn trim_keeps_the_white_space_inside() {
    assert_eq!(trim(" a b  c "), "a b  c");
}

#[test]
fn trim_of_white_space_alone_is_empty() {
    assert_eq!(trim(""), "");
    assert_eq!(trim(" \t\r\n"), "");
}

#[test]
fn trim_knows_white_space_beyond_ascii() {
    assert_eq!(trim("\u{2003}caf\u{e9}\u{a0}"), "caf\u{e9}");
}

#[test]
fn authorization_is_the_trimmed_token_as_bearer() {
    assert_eq!(authorization("abc123\n"), "Bearer abc123");
    assert_eq!(authorization("  abc123  "), "Bearer abc123");
    assert_eq!(authorization("abc123"), "Bearer abc123");
}

#[test]
fn request_headers_are_the_four_fixed_headers() {
    let headers = request_headers(" secret\n");
    let expected = vec![
        Header { name: "X-GitHub-Api-Version".to_string(), value: "2022-11-28".to_string() },
        Header { name: "Accept".to_string(), value: "application/vnd.github+json".to_string() },
        Header { name: "Authorization".to_string(), value: "Bearer secret".to_string() },
        Header { name: "User-Agent".to_string(), value: "App-Recent-Releases-Stars".to_string() },
    ];
    assert_eq!(headers, expected);
}
