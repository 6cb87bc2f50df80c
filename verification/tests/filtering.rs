use qn_changelog::config::{Config, OutputFormat};
use qn_changelog::entry::{ChangelogEntry, GithubPREntry, PrObject};
use qn_changelog::filter::{filter_entries, is_deploy, is_qa_release_pr, is_release_pr, should_filter};

fn cfg(dont_filter: bool) -> Config {
    Config {
        token: "t".to_string(),
        format: OutputFormat::Markdown,
        user: "qbox".to_string(),
        repo: "portal-v4".to_string(),
        base_branch: "master".to_string(),
        head_branch: "develop".to_string(),
        dont_filter,
    }
}

fn entry(number: u64, title: &str) -> GithubPREntry {
    GithubPREntry::from_pr_object(&PrObject {
        number: Some(number),
        title: title.to_string(),
        body: Some(String::new()),
        merged_at: Some("2021-03-04T05:06:07Z".to_string()),
        user_login: Some("\"u\"".to_string()),
    })
    .unwrap()
}

#[test]
fn deploy_titles() {
    assert!(is_deploy("B123456"));
    assert!(is_deploy("B2021031 deploy"));
    assert!(!is_deploy("B12345 deploy"));
    assert!(!is_deploy("xB123456"));
    assert!(!is_deploy("b123456"));
    assert!(!is_deploy("\"B123456\""));
}

#[test]
fn release_titles() {
    assert!(is_release_pr("master -> develop"));
    assert!(is_release_pr("Merge Master->Develop"));
    assert!(is_release_pr("DEVELOP   ->  master"));
    assert!(!is_release_pr("master to develop"));
    assert!(!is_release_pr("master - > develop"));
}

#[test]
fn qa_release_titles() {
    assert!(is_qa_release_pr("qamaster -> qa"));
    assert!(is_qa_release_pr("QA->QAMaster"));
    assert!(!is_qa_release_pr("qa <- qamaster"));
}

#[test]
fn should_filter_respects_dont_filter() {
    let e = entry(1, "B123456");
    assert!(should_filter(&cfg(false), &e));
    assert!(!should_filter(&cfg(true), &e));
    let f = entry(2, "fix bug");
    assert!(!should_filter(&cfg(false), &f));
    let g = entry(3, "\"master -> develop\"");
    assert!(should_filter(&cfg(false), &g));
}

#[test]
fn filter_entries_keeps_order() {
    let es = vec![
        entry(1, "fix a"),
        entry(2, "B123456"),
        entry(3, "feature b"),
        entry(4, "develop -> master"),
        entry(5, "qa -> qamaster"),
        entry(6, "fix c"),
    ];
    let kept: Vec<usize> = filter_entries(&cfg(false), es).iter().map(|e| e.pr_number()).collect();
    assert_eq!(kept, vec![1, 3, 6]);
}

#[test]
fn filter_entries_keeps_all_when_unfiltered() {
    let es = vec![entry(1, "fix a"), entry(2, "B123456"), entry(3, "master->develop")];
    let kept: Vec<usize> = filter_entries(&cfg(true), es).iter().map(|e| e.pr_number()).collect();
    assert_eq!(kept, vec![1, 2, 3]);
    assert!(filter_entries(&cfg(false), Vec::<GithubPREntry>::new()).is_empty());
}
