//! Changelog entries: merged pull requests and the bug-tracker issues that
//! their descriptions link to.

use vstd::prelude::*;
use crate::instant::{UtcInstant, utc_datetime_parse, parse_utc};
use crate::pattern::{regex_all_captures, all_captures};

verus! {

/// A Jira issue linked from a pull request: its number (such as `ABC-12`)
/// and the link to it.
#[derive(Debug)]
pub struct CommonIssue {
    number: String,
    link: String,
}

impl View for CommonIssue {
    /// `(number, link)`
    type V = (Seq<char>, Seq<char>);

    closed spec fn view(&self) -> (Seq<char>, Seq<char>) {
        (self.number@, self.link@)
    }
}

/// The pattern of a Jira issue link in a pull request's description: group 1
/// (`link`) is the whole link, group 2 (`number`) the issue number at its end.
pub const JIRA_ISSUE_PATTERN: &'static str = "(?P<link>https?://jira\\.[^/]+/browse/(?P<number>[0-9A-Za-z-]+))";

/// The issue that one match of [`JIRA_ISSUE_PATTERN`] denotes, from its
/// capture groups: `(number, link)`.
pub open spec fn issue_of_match(groups: Seq<Option<Seq<char>>>) -> Option<(Seq<char>, Seq<char>)> {
    if groups.len() > 2 && groups[1] is Some && groups[2] is Some {
        Some((groups[2]->0, groups[1]->0))
    } else {
        None
    }
}

/// The issues that successive matches denote, in order.
pub open spec fn issues_of_matches(ms: Seq<Seq<Option<Seq<char>>>>) -> Seq<(Seq<char>, Seq<char>)>
    decreases ms.len(),
{
    if ms.len() == 0 {
        Seq::empty()
    } else {
        let rest = issues_of_matches(ms.drop_last());
        match issue_of_match(ms.last()) {
            Some(i) => rest.push(i),
            None => rest,
        }
    }
}

/// The issues linked from a description, in the order of their links.
pub open spec fn body_issues(body: Seq<char>) -> Seq<(Seq<char>, Seq<char>)> {
    match regex_all_captures(JIRA_ISSUE_PATTERN@, body) {
        Some(ms) => issues_of_matches(ms),
        None => Seq::empty(),
    }
}

pub open spec fn issue_views(issues: Seq<CommonIssue>) -> Seq<(Seq<char>, Seq<char>)> {
    issues.map_values(|i: CommonIssue| i@)
}

impl CommonIssue {
    pub fn new(number: &str, link: &str) -> (r: Self)
        ensures
            r@ == (number@, link@),
    {
        CommonIssue { number: number.to_owned(), link: link.to_owned() }
    }

    pub fn number(&self) -> (r: &str)
        ensures
            r@ == self@.0,
    {
        self.number.as_str()
    }

    pub fn link(&self) -> (r: &str)
        ensures
            r@ == self@.1,
    {
        self.link.as_str()
    }

    /// Every Jira issue link in `body`, in order.
    pub fn parse_all_from_body(body: &str) -> (r: Vec<CommonIssue>)
        ensures
            issue_views(r@) == body_issues(body@),
    {
        let mut out: Vec<CommonIssue> = Vec::new();
        match all_captures(JIRA_ISSUE_PATTERN, body) {
            None => {
                assert(issue_views(out@) =~= Seq::<(Seq<char>, Seq<char>)>::empty());
            },
            Some(ms) => {
                let ghost gms = ms.deep_view();
                let mut i: usize = 0;
                while i < ms.len()
                    invariant
                        i <= ms.len(),
                        gms == ms.deep_view(),
                        Some(gms) == regex_all_captures(JIRA_ISSUE_PATTERN@, body@),
                        issue_views(out@) == issues_of_matches(gms.take(i as int)),
                    decreases ms.len() - i,
                {
                    let m = &ms[i];
                    assert(gms.take(i + 1).drop_last() =~= gms.take(i as int));
                    assert(gms.take(i + 1).last() == m.deep_view());
                    if m.len() > 2 {
                        match (&m[1], &m[2]) {
                            (Some(link), Some(number)) => {
                                let issue = CommonIssue::new(number.as_str(), link.as_str());
                                let ghost old_out = out@;
                                out.push(issue);
                                assert(issue_views(out@) =~= issue_views(out@.drop_last()).push(
                                    issue@,
                                ));
                                assert(out@.drop_last() =~= old_out);
                            },
                            _ => {},
                        }
                    }
                    i += 1;
                }
                assert(gms.take(ms.len() as int) =~= gms);
            },
        }
        out
    }
}


/// What a changelog entry says of a merged pull request.
pub struct EntryView {
    pub number: usize,
    pub title: Seq<char>,
    /// `(number, link)` of each linked issue, in order.
    pub issues: Seq<(Seq<char>, Seq<char>)>,
    pub user: Seq<char>,
    pub merged_at: UtcInstant,
}

/// The numbers of the issues in `issues`, in order.
pub open spec fn issue_numbers_of(issues: Seq<(Seq<char>, Seq<char>)>) -> Seq<Seq<char>> {
    issues.map_values(|i: (Seq<char>, Seq<char>)| i.0)
}

/// One entry of a changelog: a merged pull request.
pub trait ChangelogEntry {
    spec fn entry_view(&self) -> EntryView;

    fn pr_number(&self) -> (r: usize)
        ensures
            r == self.entry_view().number,
    ;

    fn title(&self) -> (r: &str)
        ensures
            r@ == self.entry_view().title,
    ;

    fn issues(&self) -> (r: &[CommonIssue])
        ensures
            issue_views(r@) == self.entry_view().issues,
    ;

    fn issue_numbers(&self) -> (r: Vec<String>)
        ensures
            r@.map_values(|s: String| s@) == issue_numbers_of(self.entry_view().issues),
    ;

    fn user(&self) -> (r: &str)
        ensures
            r@ == self.entry_view().user,
    ;

    fn merged_at(&self) -> (r: UtcInstant)
        ensures
            r == self.entry_view().merged_at,
    ;
}

/// The members of a pull request object of GitHub's API that an entry is
/// made from.
#[derive(Debug)]
pub struct PrObject {
    /// `number`, when it is an unsigned integer.
    pub number: Option<u64>,
    /// The JSON text of `title` (a string member shows with its quotes).
    pub title: String,
    /// `body`, when it is a string.
    pub body: Option<String>,
    /// `merged_at`, when it is a string.
    pub merged_at: Option<String>,
    /// The JSON text of `login` in `user`, when `user` is an object.
    pub user_login: Option<String>,
}

/// Why a pull request object makes no entry.
#[derive(Debug, Clone, Copy, PartialEq, Eq, Structural)]
pub enum PrObjectError {
    /// `body` is not a string.
    MissingBody,
    /// `merged_at` is not a string.
    MissingMergedAt,
    /// `merged_at` is not a UTC date and time in ISO 8601 form.
    BadMergedAt,
    /// `number` is not an unsigned integer.
    MissingNumber,
    /// `user` is not an object.
    UserNotObject,
}

/// The format in which `merged_at` is read (`chrono`'s ISO 8601 form).
pub const MERGED_AT_FORMAT: &'static str = "%+";

/// The entry that a pull request object makes, or why it makes none; the
/// members are looked at in the order body, merged_at, number, user.
pub open spec fn entry_from_pr(x: PrObject) -> Result<EntryView, PrObjectError> {
    match x.body {
        None => Err(PrObjectError::MissingBody),
        Some(body) => match x.merged_at {
            None => Err(PrObjectError::MissingMergedAt),
            Some(m) => match utc_datetime_parse(m@, MERGED_AT_FORMAT@) {
                None => Err(PrObjectError::BadMergedAt),
                Some(t) => match x.number {
                    None => Err(PrObjectError::MissingNumber),
                    Some(n) => match x.user_login {
                        None => Err(PrObjectError::UserNotObject),
                        Some(login) => Ok(
                            EntryView {
                                number: n as usize,
                                title: x.title@,
                                issues: body_issues(body@),
                                user: login@,
                                merged_at: UtcInstant { seconds: t.0, nanos: t.1 },
                            },
                        ),
                    },
                },
            },
        },
    }
}

/// A merged pull request of GitHub.
#[derive(Debug)]
pub struct GithubPREntry {
    number: usize,
    title: String,
    issues: Vec<CommonIssue>,
    user: String,
    merged_at: UtcInstant,
}

impl ChangelogEntry for GithubPREntry {
    closed spec fn entry_view(&self) -> EntryView {
        EntryView {
            number: self.number,
            title: self.title@,
            issues: issue_views(self.issues@),
            user: self.user@,
            merged_at: self.merged_at,
        }
    }

    fn pr_number(&self) -> (r: usize) {
        self.number
    }

    fn title(&self) -> (r: &str) {
        self.title.as_str()
    }

    fn issues(&self) -> (r: &[CommonIssue]) {
        self.issues.as_slice()
    }

    fn issue_numbers(&self) -> (r: Vec<String>) {
        let mut out: Vec<String> = Vec::new();
        let mut i: usize = 0;
        while i < self.issues.len()
            invariant
                i <= self.issues.len(),
                out@.len() == i,
                out@.map_values(|s: String| s@) == issue_numbers_of(issue_views(self.issues@.take(i as int))),
            decreases self.issues.len() - i,
        {
            let n = self.issues[i].number().to_owned();
            let ghost prev = out@;
            out.push(n);
            proof {
                let a = out@.map_values(|s: String| s@);
                let b = issue_numbers_of(issue_views(self.issues@.take(i + 1)));
                let pb = issue_numbers_of(issue_views(self.issues@.take(i as int)));
                assert(prev.map_values(|s: String| s@) == pb);
                assert forall|k: int| 0 <= k < i + 1 implies a[k] == b[k] by {
                    if k < i {
                        assert(out@[k] == prev[k]);
                        assert(pb[k] == b[k]);
                    }
                }
                assert(a =~= b);
            }
            i += 1;
        }
        assert(self.issues@.take(self.issues.len() as int) =~= self.issues@);
        out
    }

    fn user(&self) -> (r: &str) {
        self.user.as_str()
    }

    fn merged_at(&self) -> (r: UtcInstant) {
        self.merged_at
    }
}

impl GithubPREntry {
    /// The entry that a pull request object of GitHub's API makes. The
    /// issues are those that the description links to; the title and the
    /// user are the JSON text of `title` and of `user.login`.
    pub fn from_pr_object(x: &PrObject) -> (r: Result<Self, PrObjectError>)
        ensures
            match r {
                Ok(e) => entry_from_pr(*x) == Ok::<EntryView, PrObjectError>(e.entry_view()),
                Err(err) => entry_from_pr(*x) == Err::<EntryView, PrObjectError>(err),
            },
    {
        let body = match &x.body {
            Some(b) => b,
            None => return Err(PrObjectError::MissingBody),
        };
        let issues = CommonIssue::parse_all_from_body(body.as_str());
        let merged_at_text = match &x.merged_at {
            Some(m) => m,
            None => return Err(PrObjectError::MissingMergedAt),
        };
        let merged_at = match parse_utc(merged_at_text.as_str(), MERGED_AT_FORMAT) {
            Some(t) => UtcInstant { seconds: t.0, nanos: t.1 },
            None => return Err(PrObjectError::BadMergedAt),
        };
        let number: usize = match x.number {
            Some(n) => n as usize,
            None => return Err(PrObjectError::MissingNumber),
        };
        let user = match &x.user_login {
            Some(l) => l.clone(),
            None => return Err(PrObjectError::UserNotObject),
        };
        let e = GithubPREntry { number, title: x.title.clone(), issues, user, merged_at };
        proof {
            assert(e.entry_view() == entry_from_pr(*x)->Ok_0);
        }
        Ok(e)
    }
}


proof fn lemma_issues_of_matches_each(ms: Seq<Seq<Option<Seq<char>>>>)
    ensures
        issues_of_matches(ms).len() <= ms.len(),
        (forall|k: int|
            0 <= k < ms.len() ==> (#[trigger] ms[k]).len() > 2 && ms[k][1] is Some && ms[k][2] is Some)
            ==> issues_of_matches(ms).len() == ms.len() && forall|k: int|
            0 <= k < ms.len() ==> #[trigger] issues_of_matches(ms)[k] == (ms[k][2]->0, ms[k][1]->0),
    decreases ms.len(),
{
    if ms.len() > 0 {
        let d = ms.drop_last();
        lemma_issues_of_matches_each(d);
        if forall|k: int|
            0 <= k < ms.len() ==> (#[trigger] ms[k]).len() > 2 && ms[k][1] is Some && ms[k][2] is Some {
            assert forall|k: int|
                0 <= k < d.len() implies (#[trigger] d[k]).len() > 2 && d[k][1] is Some
                && d[k][2] is Some by {
                assert(d[k] == ms[k]);
            }
            let r = issues_of_matches(ms);
            assert forall|k: int| 0 <= k < ms.len() implies #[trigger] r[k] == (
            ms[k][2]->0, ms[k][1]->0) by {
                if k < ms.len() - 1 {
                    assert(d[k] == ms[k]);
                }
            }
        }
    }
}

/// One issue per link: when the Jira link pattern finds matches `ms` in a
/// description, the description's issues are at most one per match, and
/// when every match has both its groups, exactly one per match, in order:
/// the `number` group and the `link` group of that match.
pub proof fn lemma_body_issues_one_per_match(body: Seq<char>, ms: Seq<Seq<Option<Seq<char>>>>)
    requires
        regex_all_captures(JIRA_ISSUE_PATTERN@, body) == Some(ms),
    ensures
        body_issues(body).len() <= ms.len(),
        (forall|k: int|
            0 <= k < ms.len() ==> (#[trigger] ms[k]).len() > 2 && ms[k][1] is Some && ms[k][2] is Some)
            ==> body_issues(body).len() == ms.len() && forall|k: int|
            0 <= k < ms.len() ==> #[trigger] body_issues(body)[k] == (ms[k][2]->0, ms[k][1]->0),
{
    lemma_issues_of_matches_each(ms);
}

} // verus!
