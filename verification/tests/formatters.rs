use qn_changelog::config::OutputFormat;
use qn_changelog::format::{ChangelogFormatter, FormatterContext};
use qn_changelog::entry::{GithubPREntry, PrObject};
use qn_changelog::jira::{is_string_containing_all_substr, JiraFormatter};
use qn_changelog::markdown::MarkdownFormatter;
use qn_changelog::preference::{LdapMap, UserPreference};
use qn_changelog::render::render_changelog;

fn entry(number: u64, title: &str, body: &str, login: &str) -> GithubPREntry {
    GithubPREntry::from_pr_object(&PrObject {
        number: Some(number),
        title: title.to_string(),
        body: Some(body.to_string()),
        merged_at: Some("2021-03-04T05:06:07Z".to_string()),
        user_login: Some(login.to_string()),
    })
    .unwrap()
}

fn prefs() -> UserPreference {
    let mut m = LdapMap::new();
    m.insert("alice".to_string(), "ali".to_string());
    UserPreference::new(None, Some(m))
}

const TWO_ISSUES: &str = "https://jira.a.com/browse/ABC-1 https://jira.a.com/browse/ABC-2";

#[test]
fn containing_all_substrings() {
    assert!(is_string_containing_all_substr("ABC-1 and ABC-2", &["ABC-1", "ABC-2"]));
    assert!(!is_string_containing_all_substr("ABC-1 only", &["ABC-1", "ABC-2"]));
    assert!(is_string_containing_all_substr("anything", &[]));
    assert!(is_string_containing_all_substr("", &[""]));
}

#[test]
fn jira_empty_changelog() {
    let mut f = JiraFormatter::with_writer(String::new());
    f.format::<UserPreference, GithubPREntry>(&prefs(), &[]);
    assert_eq!(f.into_inner(), "no changelog\n");
}

#[test]
fn jira_entry_with_issue_tags_and_ldap() {
    let mut f = JiraFormatter::with_writer(String::new());
    f.format(&prefs(), &[entry(7, "fix crash", TWO_ISSUES, "alice")]);
    assert_eq!(f.into_inner(), "- [ABC-1,ABC-2] fix crash [~ali]\n");
}

#[test]
fn jira_entry_title_with_all_issues_and_unknown_user() {
    let mut f = JiraFormatter::with_writer("head\n".to_string());
    f.format(&prefs(), &[entry(7, "ABC-2: fix ABC-1", TWO_ISSUES, "bob")]);
    assert_eq!(f.into_inner(), "head\n- ABC-2: fix ABC-1 bob\n");
}

#[test]
fn jira_entry_without_issues() {
    let mut f = JiraFormatter::with_writer(String::new());
    f.format(&prefs(), &[entry(1, "a", "", "bob"), entry(2, "b", "https://jira.x/browse/Q-9", "alice")]);
    assert_eq!(f.into_inner(), "- a bob\n- [Q-9] b [~ali]\n");
}

#[test]
fn markdown_entries() {
    let mut f = MarkdownFormatter::with_writer(String::new());
    f.format(&prefs(), &[entry(12, "fix crash", TWO_ISSUES, "alice"), entry(5, "docs", "", "bob")]);
    assert_eq!(
        f.into_inner(),
        "* [[ABC-1](https://jira.a.com/browse/ABC-1),[ABC-2](https://jira.a.com/browse/ABC-2)] fix crash #12 (@alice)\n* [] docs #5 (@bob)\n"
    );
}

#[test]
fn markdown_empty_changelog() {
    let mut f = MarkdownFormatter::with_writer("x".to_string());
    f.format::<UserPreference, GithubPREntry>(&prefs(), &[]);
    assert_eq!(f.into_inner(), "x");
}

#[test]
fn render_by_format() {
    let es = [entry(3, "t", "", "alice")];
    assert_eq!(render_changelog(OutputFormat::Jira, &prefs(), &es), Some("- t [~ali]\n".to_string()));
    assert_eq!(render_changelog(OutputFormat::Markdown, &prefs(), &es), Some("* [] t #3 (@alice)\n".to_string()));
    assert_eq!(render_changelog(OutputFormat::Html, &prefs(), &es), None);
    let none: [GithubPREntry; 0] = [];
    assert_eq!(render_changelog(OutputFormat::Jira, &prefs(), &none), Some("no changelog\n".to_string()));
    assert_eq!(render_changelog(OutputFormat::Markdown, &prefs(), &none), Some(String::new()));
}

#[test]
fn entries_written_one_by_one_equal_the_whole_list() {
    let a = entry(1, "fix a", TWO_ISSUES, "alice");
    let b = entry(2, "ABC-1 ABC-2 done", TWO_ISSUES, "bob");
    let p = prefs();
    assert_eq!(p.github_id_to_ldap("alice"), Some("ali".to_string()));

    let mut one_by_one = JiraFormatter::with_writer(String::new());
    ChangelogFormatter::<UserPreference>::format_prologue(&mut one_by_one, &p);
    one_by_one.format_entry(&p, &a);
    one_by_one.format_entry(&p, &b);
    ChangelogFormatter::<UserPreference>::format_epilogue(&mut one_by_one, &p);

    let mut whole = JiraFormatter::with_writer(String::new());
    whole.format(&p, &[a, b]);
    let text = whole.into_inner();
    assert_eq!(one_by_one.into_inner(), text);
    assert_eq!(text, "- [ABC-1,ABC-2] fix a [~ali]\n- ABC-1 ABC-2 done bob\n");

    let mut md = MarkdownFormatter::with_writer(String::new());
    ChangelogFormatter::<UserPreference>::format_empty(&mut md, &p);
    assert_eq!(md.into_inner(), "");
}
