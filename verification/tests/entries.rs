use qn_changelog::entry::{ChangelogEntry, CommonIssue, GithubPREntry, PrObject, PrObjectError};
use qn_changelog::instant::UtcInstant;

fn pr(body: Option<&str>, merged_at: Option<&str>, number: Option<u64>, login: Option<&str>) -> PrObject {
    PrObject {
        number,
        title: "\"Fix ABC-1 crash\"".to_string(),
        body: body.map(|s| s.to_string()),
        merged_at: merged_at.map(|s| s.to_string()),
        user_login: login.map(|s| s.to_string()),
    }
}

#[test]
fn issues_parsed_from_body_in_order() {
    let body = "Fixes https://jira.example.com/browse/ABC-123 and see http://jira.corp/browse/X-1.";
    let issues = CommonIssue::parse_all_from_body(body);
    let got: Vec<(&str, &str)> = issues.iter().map(|i| (i.number(), i.link())).collect();
    assert_eq!(
        got,
        vec![
            ("ABC-123", "https://jira.example.com/browse/ABC-123"),
            ("X-1", "http://jira.corp/browse/X-1"),
        ]
    );
}

#[test]
fn issue_links_need_a_jira_host_and_a_number() {
    assert!(CommonIssue::parse_all_from_body("").is_empty());
    assert!(CommonIssue::parse_all_from_body("https://example.com/browse/ABC-1").is_empty());
    assert!(CommonIssue::parse_all_from_body("https://jira.example.com/browse/").is_empty());
    assert!(CommonIssue::parse_all_from_body("ftp://jira.example.com/browse/ABC-1").is_empty());
}

#[test]
fn issue_number_stops_at_other_characters() {
    let issues = CommonIssue::parse_all_from_body("(https://jira.x.io/browse/ab-9_z)");
    assert_eq!(issues.len(), 1);
    assert_eq!(issues[0].number(), "ab-9");
    assert_eq!(issues[0].link(), "https://jira.x.io/browse/ab-9");
}

#[test]
fn common_issue_new() {
    let i = CommonIssue::new("ABC-7", "https://jira.a/browse/ABC-7");
    assert_eq!(i.number(), "ABC-7");
    assert_eq!(i.link(), "https://jira.a/browse/ABC-7");
}

#[test]
fn entry_from_pr_object() {
    let x = pr(
        Some("see https://jira.a.com/browse/ABC-1 https://jira.a.com/browse/ABC-2"),
        Some("2021-03-04T05:06:07Z"),
        Some(42),
        Some("\"octocat\""),
    );
    let e = GithubPREntry::from_pr_object(&x).unwrap();
    assert_eq!(e.pr_number(), 42);
    assert_eq!(e.title(), "\"Fix ABC-1 crash\"");
    assert_eq!(e.user(), "\"octocat\"");
    assert_eq!(e.merged_at(), UtcInstant { seconds: 1614834367, nanos: 0 });
    assert_eq!(e.issue_numbers(), vec!["ABC-1".to_string(), "ABC-2".to_string()]);
    let links: Vec<&str> = e.issues().iter().map(|i| i.link()).collect();
    assert_eq!(links, vec!["https://jira.a.com/browse/ABC-1", "https://jira.a.com/browse/ABC-2"]);
}

#[test]
fn merged_at_with_fraction() {
    let x = pr(Some(""), Some("2020-01-01T00:00:00.5Z"), Some(1), Some("\"u\""));
    let e = GithubPREntry::from_pr_object(&x).unwrap();
    assert_eq!(e.merged_at(), UtcInstant { seconds: 1577836800, nanos: 500_000_000 });
    assert!(e.issues().is_empty());
}

#[test]
fn missing_body_is_refused_first() {
    let x = pr(None, None, None, None);
    assert_eq!(GithubPREntry::from_pr_object(&x).unwrap_err(), PrObjectError::MissingBody);
}

#[test]
fn missing_merged_at_is_refused() {
    let x = pr(Some("b"), None, None, None);
    assert_eq!(GithubPREntry::from_pr_object(&x).unwrap_err(), PrObjectError::MissingMergedAt);
}

#[test]
fn bad_merged_at_is_refused() {
    for t in ["yesterday", "2021-03-04", "2021-03-04T05:06:07+09:00"] {
        let x = pr(Some("b"), Some(t), Some(1), Some("\"u\""));
        assert_eq!(GithubPREntry::from_pr_object(&x).unwrap_err(), PrObjectError::BadMergedAt, "{}", t);
    }
}

#[test]
fn missing_number_is_refused() {
    let x = pr(Some("b"), Some("2021-03-04T05:06:07Z"), None, Some("\"u\""));
    assert_eq!(GithubPREntry::from_pr_object(&x).unwrap_err(), PrObjectError::MissingNumber);
}

#[test]
fn user_not_object_is_refused() {
    let x = pr(Some("b"), Some("2021-03-04T05:06:07Z"), Some(3), None);
    assert_eq!(GithubPREntry::from_pr_object(&x).unwrap_err(), PrObjectError::UserNotObject);
}
