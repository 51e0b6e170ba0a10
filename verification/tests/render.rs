use recent_releases::model::LatestRelease;
use recent_releases::render::render_entry;
use recent_releases::render::render_report;
use recent_releases::timestamp::Timestamp;

fn entry(repo: &str, version: &str, published_at: &str, url: &str) -> LatestRelease {
    LatestRelease {
        repo: repo.to_string(),
        version: version.to_string(),
        published_at: Timestamp::parse(published_at).unwrap(),
        html_url: url.to_string(),
    }
}

#[test]
fn render_entry_writes_the_four_lines() {
    let text = render_entry(&entry(
        "owner/c",
        "v3.1",
        "2024-06-15T08:30:00Z",
        "https://github.com/owner/c/releases/tag/v3.1",
    ));
    assert_eq!(
        text,
        "owner/c\n   - Version : v3.1\n   - Date : 15/06/2024\n   - https://github.com/owner/c/releases/tag/v3.1\n"
    );
}

#[test]
fn render_entry_of_empty_fields() {
    let text = render_entry(&entry("", "", "1970-01-01T00:00:00Z", ""));
    assert_eq!(text, "\n   - Version : \n   - Date : 01/01/1970\n   - \n");
}

#[test]
fn render_report_of_nothing_is_empty() {
    assert_eq!(render_report(&Vec::new()), "");
}

#[test]
fn render_report_writes_the_entries_in_order() {
    let report = vec![
        entry("owner/c", "v3", "2024-06-15T00:00:00Z", "https://example.org/c"),
        entry("owner/a", "v1", "2023-01-01T00:00:00Z", "https://example.org/a"),
    ];
    let expected = "owner/c\n   - Version : v3\n   - Date : 15/06/2024\n   - https://example.org/c\n\n\
                    owner/a\n   - Version : v1\n   - Date : 01/01/2023\n   - https://example.org/a\n\n";
    assert_eq!(render_report(&report), expected);
}

#[test]
fn render_report_is_each_entry_and_a_line_end() {
    let report = vec![
        entry("x/y", "1", "2020-02-29T12:00:00Z", "u"),
        entry("z/w", "2", "2019-12-31T23:59:59Z", "v"),
        entry("q/r", "3", "2019-12-31T23:59:59Z", "w"),
    ];
    let mut expected = String::new();
    for entry in &report {
        expected.push_str(&render_entry(entry));
        expected.push('\n');
    }
    assert_eq!(render_report(&report), expected);
}
