//! Where the pull requests of a changelog come from: the merge commits of a
//! comparison of two branches on GitHub.

use vstd::prelude::*;
use vstd::string::*;
use crate::config::Config;
use crate::pattern::{regex_first_captures, first_captures};
use crate::text::{decimal, append_decimal, parse_usize, parse_usize_spec};

verus! {

/// A commit's message, as a comparison of branches reports it.
#[derive(Debug)]
pub struct CommitInfo {
    pub message: String,
}

/// A parent of a commit, as a comparison of branches reports it.
#[derive(Debug)]
pub struct CommitParentInfo {
    pub sha: String,
}

/// One commit of a comparison of branches.
#[derive(Debug)]
pub struct CompareCommitInfo {
    pub commit: CommitInfo,
    pub parents: Vec<CommitParentInfo>,
}

/// A commit: its title, and whether it merges branches.
#[derive(Debug)]
pub struct GitHubCommit {
    title: String,
    is_merge: bool,
}

impl View for GitHubCommit {
    /// `(title, is_merge)`
    type V = (Seq<char>, bool);

    closed spec fn view(&self) -> (Seq<char>, bool) {
        (self.title@, self.is_merge)
    }
}

impl GitHubCommit {
    /// The commit's title is its whole message; it is a merge when it has
    /// more than one parent.
    pub fn from_compare_commit_info_object(x: CompareCommitInfo) -> (r: Self)
        ensures
            r@.0 == x.commit.message@,
            r@.1 == (x.parents@.len() > 1),
    {
        GitHubCommit { title: x.commit.message, is_merge: x.parents.len() > 1 }
    }

    pub fn is_merge_commit(&self) -> (r: bool)
        ensures
            r == self@.1,
    {
        self.is_merge
    }

    pub fn title(&self) -> (r: &str)
        ensures
            r@ == self@.0,
    {
        self.title.as_str()
    }
}

/// The title of a merge of a pull request; group 1 is its number.
pub const MERGE_TITLE_PATTERN: &'static str = "^Merge pull request #(\\d+)";

/// What a commit says of a pull request: `None` when it names none (it is
/// no merge, or its title is not a merge of a pull request), `Some(Some(n))`
/// when it merges pull request `n`, `Some(None)` when the number it names
/// cannot be read.
pub open spec fn commit_pr_id(c: (Seq<char>, bool)) -> Option<Option<usize>> {
    if !c.1 {
        None
    } else {
        match regex_first_captures(MERGE_TITLE_PATTERN@, c.0) {
            Some(Some(groups)) => if groups.len() > 1 && groups[1] is Some {
                Some(parse_usize_spec(groups[1]->0))
            } else {
                Some(None)
            },
            _ => None,
        }
    }
}

/// The numbers of the pull requests that `commits` merge, in order; `None`
/// when one of the numbers cannot be read.
pub open spec fn merged_pr_ids(commits: Seq<(Seq<char>, bool)>) -> Option<Seq<usize>>
    decreases commits.len(),
{
    if commits.len() == 0 {
        Some(Seq::empty())
    } else {
        match merged_pr_ids(commits.drop_last()) {
            None => None,
            Some(ids) => match commit_pr_id(commits.last()) {
                None => Some(ids),
                Some(None) => None,
                Some(Some(n)) => Some(ids.push(n)),
            },
        }
    }
}

pub open spec fn commit_views(commits: Seq<GitHubCommit>) -> Seq<(Seq<char>, bool)> {
    commits.map_values(|c: GitHubCommit| c@)
}

fn commit_pr_id_of(c: &GitHubCommit) -> (r: Option<Option<usize>>)
    ensures
        r == commit_pr_id(c@),
{
    if !c.is_merge_commit() {
        return None;
    }
    match first_captures(MERGE_TITLE_PATTERN, c.title()) {
        Some(Some(groups)) => {
            if groups.len() > 1 {
                match &groups[1] {
                    Some(digits) => {
                        assert(groups.deep_view()[1] == Some(digits@));
                        Some(parse_usize(digits.as_str()))
                    },
                    None => Some(None),
                }
            } else {
                Some(None)
            }
        },
        _ => None,
    }
}

/// The numbers of the pull requests that `commits` merge, in order; `None`
/// when the number in a merge title does not fit in a `usize`.
pub fn merge_pr_ids(commits: &[GitHubCommit]) -> (r: Option<Vec<usize>>)
    ensures
        match r {
            Some(ids) => merged_pr_ids(commit_views(commits@)) == Some(ids@),
            None => merged_pr_ids(commit_views(commits@)) is None,
        },
{
    let ghost cs = commit_views(commits@);
    let mut ids: Vec<usize> = Vec::new();
    let mut i: usize = 0;
    while i < commits.len()
        invariant
            i <= commits@.len(),
            cs == commit_views(commits@),
            merged_pr_ids(cs.take(i as int)) == Some(ids@),
        decreases commits.len() - i,
    {
        let ghost t = cs.take(i + 1);
        assert(t.drop_last() =~= cs.take(i as int));
        assert(t.last() == commits@[i as int]@);
        match commit_pr_id_of(&commits[i]) {
            None => {},
            Some(None) => {
                proof {
                    lemma_merged_pr_ids_none_extends(cs, i as int + 1);
                }
                return None;
            },
            Some(Some(n)) => {
                ids.push(n);
            },
        }
        i += 1;
    }
    assert(cs.take(commits.len() as int) =~= cs);
    Some(ids)
}

proof fn lemma_merged_pr_ids_none_extends(cs: Seq<(Seq<char>, bool)>, k: int)
    requires
        0 <= k <= cs.len(),
        merged_pr_ids(cs.take(k)) is None,
    ensures
        merged_pr_ids(cs) is None,
    decreases cs.len() - k,
{
    if k < cs.len() {
        assert(cs.take(k + 1).drop_last() =~= cs.take(k));
        lemma_merged_pr_ids_none_extends(cs, k + 1);
    } else {
        assert(cs.take(k) =~= cs);
    }
}

/// The repository and branches that a changelog compares on GitHub.
pub struct GitHubSource<'a> {
    cfg: &'a Config,
}

impl<'a> GitHubSource<'a> {
    pub closed spec fn config(&self) -> &'a Config {
        self.cfg
    }

    pub fn new(cfg: &'a Config) -> (r: Self)
        ensures
            r.config() == cfg,
    {
        GitHubSource { cfg }
    }

    pub fn user(&self) -> (r: &str)
        ensures
            r@ == self.config().user@,
    {
        self.cfg.user.as_str()
    }

    pub fn repo(&self) -> (r: &str)
        ensures
            r@ == self.config().repo@,
    {
        self.cfg.repo.as_str()
    }

    pub fn base_branch(&self) -> (r: &str)
        ensures
            r@ == self.config().base_branch@,
    {
        self.cfg.base_branch.as_str()
    }

    pub fn head_branch(&self) -> (r: &str)
        ensures
            r@ == self.config().head_branch@,
    {
        self.cfg.head_branch.as_str()
    }

    /// The API route that compares the base branch with the head branch:
    /// `repos/{user}/{repo}/compare/{base}...{head}`.
    pub fn compare_route(&self) -> (r: String)
        ensures
            r@ == "repos/"@ + self.config().user@ + "/"@ + self.config().repo@ + "/compare/"@
                + self.config().base_branch@ + "..."@ + self.config().head_branch@,
    {
        let mut s = String::new();
        s.append("repos/");
        s.append(self.user());
        s.append("/");
        s.append(self.repo());
        s.append("/compare/");
        s.append(self.base_branch());
        s.append("...");
        s.append(self.head_branch());
        s
    }

    /// The API route of pull request `id`: `/repos/{user}/{repo}/pulls/{id}`.
    pub fn pull_route(&self, id: usize) -> (r: String)
        ensures
            r@ == "/repos/"@ + self.config().user@ + "/"@ + self.config().repo@ + "/pulls/"@
                + decimal(id as nat),
    {
        let mut s = String::new();
        s.append("/repos/");
        s.append(self.user());
        s.append("/");
        s.append(self.repo());
        s.append("/pulls/");
        append_decimal(&mut s, id);
        s
    }
}


/// A commit that is no merge brings in no pull request.
pub proof fn lemma_non_merge_adds_nothing(commits: Seq<(Seq<char>, bool)>, title: Seq<char>)
    ensures
        merged_pr_ids(commits.push((title, false))) == merged_pr_ids(commits),
{
    assert(commits.push((title, false)).drop_last() =~= commits);
}


/// A merge commit whose title names pull request `n` adds `n` at the end of
/// the pull requests brought in; one whose named number cannot be read makes
/// the whole list unreadable.
pub proof fn lemma_merge_commit_appends_id(
    commits: Seq<(Seq<char>, bool)>,
    title: Seq<char>,
    groups: Seq<Option<Seq<char>>>,
    digits: Seq<char>,
)
    requires
        regex_first_captures(MERGE_TITLE_PATTERN@, title) == Some(Some(groups)),
        groups.len() > 1,
        groups[1] == Some(digits),
    ensures
        parse_usize_spec(digits) matches Some(n) ==> merged_pr_ids(commits.push((title, true)))
            == match merged_pr_ids(commits) {
            Some(ids) => Some(ids.push(n)),
            None => None::<Seq<usize>>,
        },
        parse_usize_spec(digits) is None ==> merged_pr_ids(commits.push((title, true))) is None,
{
    assert(commits.push((title, true)).drop_last() =~= commits);
}

} // verus!
