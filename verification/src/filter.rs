//! Which pull requests stay out of a changelog: deployments and merges
//! between release branches.

use vstd::prelude::*;
use crate::config::Config;
use crate::entry::{ChangelogEntry, EntryView};
use crate::format::entry_views;
use crate::pattern::{regex_is_match, search};

verus! {

/// A deployment's title starts with `B` and six digits.
pub const DEPLOY_TITLE_PATTERN: &'static str = "^B\\d{6}";

/// A merge of master into develop.
pub const MASTER_DEV_PATTERN: &'static str = "(?i)master\\s*->\\s*develop";

/// A merge of develop into master.
pub const DEV_MASTER_PATTERN: &'static str = "(?i)develop\\s*->\\s*master";

/// A merge of qamaster into qa.
pub const QA_MASTER_DEV_PATTERN: &'static str = "(?i)qamaster\\s*->\\s*qa";

/// A merge of qa into qamaster.
pub const QA_DEV_MASTER_PATTERN: &'static str = "(?i)qa\\s*->\\s*qamaster";

/// `pattern` matches somewhere in `text`.
pub open spec fn title_matches(pattern: Seq<char>, text: Seq<char>) -> bool {
    regex_is_match(pattern, text) == Some(true)
}

pub open spec fn deploy_title(title: Seq<char>) -> bool {
    title_matches(DEPLOY_TITLE_PATTERN@, title)
}

pub open spec fn release_title(title: Seq<char>) -> bool {
    title_matches(MASTER_DEV_PATTERN@, title) || title_matches(DEV_MASTER_PATTERN@, title)
}

pub open spec fn qa_release_title(title: Seq<char>) -> bool {
    title_matches(QA_MASTER_DEV_PATTERN@, title) || title_matches(QA_DEV_MASTER_PATTERN@, title)
}

/// A pull request with this title stays out of a filtered changelog.
pub open spec fn filtered_title(title: Seq<char>) -> bool {
    deploy_title(title) || release_title(title) || qa_release_title(title)
}

fn matches(pattern: &str, text: &str) -> (r: bool)
    ensures
        r == title_matches(pattern@, text@),
{
    match search(pattern, text) {
        Some(b) => b,
        None => false,
    }
}

pub fn is_deploy(title: &str) -> (r: bool)
    ensures
        r == deploy_title(title@),
{
    matches(DEPLOY_TITLE_PATTERN, title)
}

pub fn is_release_pr(title: &str) -> (r: bool)
    ensures
        r == release_title(title@),
{
    matches(MASTER_DEV_PATTERN, title) || matches(DEV_MASTER_PATTERN, title)
}

pub fn is_qa_release_pr(title: &str) -> (r: bool)
    ensures
        r == qa_release_title(title@),
{
    matches(QA_MASTER_DEV_PATTERN, title) || matches(QA_DEV_MASTER_PATTERN, title)
}

/// Whether `x` stays out of the changelog: never when every pull request is
/// to be shown, else when its title is a deployment's or a release merge's.
pub fn should_filter<E: ChangelogEntry>(cfg: &Config, x: &E) -> (r: bool)
    ensures
        r == (!cfg.dont_filter && filtered_title(x.entry_view().title)),
{
    if cfg.dont_filter {
        false
    } else {
        let title = x.title();
        is_deploy(title) || is_release_pr(title) || is_qa_release_pr(title)
    }
}

/// The entries of `es` that stay in the changelog, in order.
pub open spec fn kept_entries(dont_filter: bool, es: Seq<EntryView>) -> Seq<EntryView>
    decreases es.len(),
{
    if es.len() == 0 {
        Seq::empty()
    } else {
        let rest = kept_entries(dont_filter, es.drop_last());
        if !dont_filter && filtered_title(es.last().title) {
            rest
        } else {
            rest.push(es.last())
        }
    }
}

/// The entries that stay in the changelog, in their order.
pub fn filter_entries<E: ChangelogEntry>(cfg: &Config, entries: Vec<E>) -> (r: Vec<E>)
    ensures
        entry_views(r@) == kept_entries(cfg.dont_filter, entry_views(entries@)),
{
    let ghost orig = entries@;
    let ghost views = entry_views(orig);
    let n = entries.len();
    let mut rest = entries;
    let mut out: Vec<E> = Vec::new();
    let mut i: usize = 0;
    assert(orig.skip(0) =~= orig);
    assert(views.take(0) =~= Seq::<EntryView>::empty());
    assert(entry_views(out@) =~= Seq::<EntryView>::empty());
    while i < n
        invariant
            n == orig.len(),
            i <= n,
            views == entry_views(orig),
            rest@ == orig.skip(i as int),
            entry_views(out@) == kept_entries(cfg.dont_filter, views.take(i as int)),
        decreases n - i,
    {
        let e = rest.remove(0);
        assert(rest@ =~= orig.skip(i + 1));
        assert(e == orig[i as int]);
        let ghost t = views.take(i + 1);
        assert(t.drop_last() =~= views.take(i as int));
        assert(t.last() == e.entry_view());
        if !should_filter(cfg, &e) {
            let ghost prev = out@;
            out.push(e);
            assert(entry_views(out@) =~= entry_views(prev).push(orig[i as int].entry_view()));
        }
        i += 1;
    }
    assert(views.take(n as int) =~= views);
    out
}


/// When every pull request is to be shown, every entry stays.
pub proof fn lemma_unfiltered_keeps_all(es: Seq<EntryView>)
    ensures
        kept_entries(true, es) == es,
    decreases es.len(),
{
    if es.len() > 0 {
        lemma_unfiltered_keeps_all(es.drop_last());
        assert(es.drop_last().push(es.last()) =~= es);
    }
}

/// Filtering keeps no deployment or release merge, keeps every other entry,
/// and keeps the entries in their order: what stays is the entries whose
/// titles are not filtered, and no more.
pub proof fn lemma_filtered_entries(es: Seq<EntryView>)
    ensures
        kept_entries(false, es) == es.filter(|e: EntryView| !filtered_title(e.title)),
        forall|i: int|
            0 <= i < kept_entries(false, es).len() ==> !filtered_title(
                #[trigger] kept_entries(false, es)[i].title,
            ),
    decreases es.len(),
{
    reveal(Seq::filter);
    if es.len() > 0 {
        lemma_filtered_entries(es.drop_last());
    }
    let k = kept_entries(false, es);
    let f = es.filter(|e: EntryView| !filtered_title(e.title));
    assert(k == f);
    assert forall|i: int| 0 <= i < k.len() implies !filtered_title(#[trigger] k[i].title) by {
        es.lemma_filter_pred(|e: EntryView| !filtered_title(e.title), i);
    }
}


/// The filter rule: a title is filtered exactly when one of the five
/// patterns (a deployment, master to develop, develop to master, qamaster to
/// qa, qa to qamaster) matches somewhere in it.
pub proof fn lemma_filter_rule(t: Seq<char>)
    ensures
        filtered_title(t) <==> (regex_is_match(DEPLOY_TITLE_PATTERN@, t) == Some(true)
            || regex_is_match(MASTER_DEV_PATTERN@, t) == Some(true) || regex_is_match(
            DEV_MASTER_PATTERN@,
            t,
        ) == Some(true) || regex_is_match(QA_MASTER_DEV_PATTERN@, t) == Some(true)
            || regex_is_match(QA_DEV_MASTER_PATTERN@, t) == Some(true)),
{
}

} // verus!
