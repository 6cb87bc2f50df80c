use qn_changelog::config::{Config, OutputFormat};
use qn_changelog::source::{
    merge_pr_ids, CommitInfo, CommitParentInfo, CompareCommitInfo, GitHubCommit, GitHubSource,
};

fn commit(message: &str, parents: usize) -> GitHubCommit {
    GitHubCommit::from_compare_commit_info_object(CompareCommitInfo {
        commit: CommitInfo { message: message.to_string() },
        parents: (0..parents).map(|i| CommitParentInfo { sha: format!("sha{}", i) }).collect(),
    })
}

fn cfg() -> Config {
    Config {
        token: "t".to_string(),
        format: OutputFormat::Jira,
        user: "qbox".to_string(),
        repo: "portal-v4".to_string(),
        base_branch: "master".to_string(),
        head_branch: "develop".to_string(),
        dont_filter: false,
    }
}

#[test]
fn commits_with_two_parents_are_merges() {
    let c = commit("Merge pull request #5 from a/b\n\nbody", 2);
    assert!(c.is_merge_commit());
    assert_eq!(c.title(), "Merge pull request #5 from a/b\n\nbody");
    assert!(!commit("x", 1).is_merge_commit());
    assert!(!commit("x", 0).is_merge_commit());
}

#[test]
fn pr_ids_of_merge_commits() {
    let cs = vec![
        commit("Merge pull request #12 from a/b", 2),
        commit("Merge pull request #13 from a/c", 1),
        commit("fix thing", 2),
        commit("Revert \"Merge pull request #3\"", 2),
        commit("Merge pull request #0007 from x", 3),
    ];
    assert_eq!(merge_pr_ids(&cs), Some(vec![12, 7]));
    assert_eq!(merge_pr_ids(&[]), Some(vec![]));
}

#[test]
fn pr_id_too_large_is_unreadable() {
    let cs = vec![
        commit("Merge pull request #1 from a", 2),
        commit("Merge pull request #99999999999999999999999 from a", 2),
    ];
    assert_eq!(merge_pr_ids(&cs), None);
}

#[test]
fn source_routes() {
    let c = cfg();
    let s = GitHubSource::new(&c);
    assert_eq!(s.user(), "qbox");
    assert_eq!(s.repo(), "portal-v4");
    assert_eq!(s.base_branch(), "master");
    assert_eq!(s.head_branch(), "develop");
    assert_eq!(s.compare_route(), "repos/qbox/portal-v4/compare/master...develop");
    assert_eq!(s.pull_route(1234), "/repos/qbox/portal-v4/pulls/1234");
}
