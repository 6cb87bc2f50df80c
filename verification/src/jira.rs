//! Changelogs in Jira markup.

use vstd::prelude::*;
use vstd::string::*;
use crate::entry::{ChangelogEntry, EntryView, CommonIssue, issue_numbers_of, issue_views};
use crate::format::{ChangelogFormatter, FormatterContext, changelog_text, entry_views, format_changelog};
use crate::text::{contains_all, join, str_contains, str_views, append_joined};

verus! {

/// Writes changelogs in Jira markup into a string buffer.
pub struct JiraFormatter {
    w: String,
}

/// The line that stands for an empty changelog.
pub const JIRA_EMPTY_TEXT: &'static str = "no changelog\n";

/// The line of one entry: a bullet, the numbers of its issues in brackets
/// unless the title already holds every one of them, the title, and the
/// user, as an LDAP mention (`[~name]`) when `ldap` gives a name.
pub open spec fn jira_entry_text(ldap: Option<Seq<char>>, e: EntryView) -> Seq<char> {
    let numbers = issue_numbers_of(e.issues);
    "- "@ + (if contains_all(e.title, numbers) {
        Seq::empty()
    } else {
        "["@ + join(numbers, ","@) + "] "@
    }) + e.title + " "@ + match ldap {
        Some(name) => "[~"@ + name + "]\n"@,
        None => e.user + "\n"@,
    }
}

/// Whether every one of `tags` occurs in `x`. A title that already names
/// every issue of its pull request gets no issue list.
pub fn is_string_containing_all_substr(x: &str, tags: &[&str]) -> (r: bool)
    ensures
        r == contains_all(x@, str_views(tags@)),
{
    let ghost ts = str_views(tags@);
    let mut i: usize = 0;
    while i < tags.len()
        invariant
            i <= tags@.len(),
            ts == str_views(tags@),
            forall|j: int| 0 <= j < i ==> crate::text::occurs_in(x@, #[trigger] ts[j]),
        decreases tags.len() - i,
    {
        if !str_contains(x, tags[i]) {
            assert(!crate::text::occurs_in(x@, ts[i as int]));
            return false;
        }
        i += 1;
    }
    true
}

impl JiraFormatter {
    /// A formatter that appends to `w`.
    pub fn with_writer(w: String) -> (r: Self)
        ensures
            r.output() == w@,
    {
        JiraFormatter { w }
    }

    /// What the buffer holds.
    pub closed spec fn output(&self) -> Seq<char> {
        self.w@
    }

    /// The buffer, with all that was written to it.
    pub fn into_inner(self) -> (r: String)
        ensures
            r@ == self.output(),
    {
        self.w
    }

    /// Writes the changelog of `entries`.
    pub fn format<C: FormatterContext, E: ChangelogEntry>(&mut self, ctx: &C, entries: &[E])
        ensures
            final(self).output() == old(self).output() + changelog_text::<C, JiraFormatter>(
                ctx,
                entry_views(entries@),
            ),
    {
        format_changelog::<C, JiraFormatter, E>(self, ctx, entries);
    }
}

fn issue_number_strs(issues: &[CommonIssue]) -> (r: Vec<&str>)
    ensures
        str_views(r@) == issue_numbers_of(issue_views(issues@)),
{
    let mut out: Vec<&str> = Vec::new();
    let mut i: usize = 0;
    while i < issues.len()
        invariant
            i <= issues@.len(),
            out@.len() == i,
            str_views(out@) == issue_numbers_of(issue_views(issues@)).take(i as int),
        decreases issues.len() - i,
    {
        let ghost prev = out@;
        out.push(issues[i].number());
        proof {
            let a = str_views(out@);
            let b = issue_numbers_of(issue_views(issues@)).take(i + 1);
            assert forall|k: int| 0 <= k < i + 1 implies a[k] == b[k] by {
                if k < i {
                    assert(out@[k] == prev[k]);
                    assert(str_views(prev)[k] == b[k]);
                }
            }
            assert(a =~= b);
        }
        i += 1;
    }
    assert(issue_numbers_of(issue_views(issues@)).take(issues.len() as int) =~= issue_numbers_of(
        issue_views(issues@),
    ));
    out
}

impl<C: FormatterContext> ChangelogFormatter<C> for JiraFormatter {
    open spec fn written(&self) -> Seq<char> {
        self.output()
    }

    open spec fn empty_text(ctx: &C) -> Seq<char> {
        JIRA_EMPTY_TEXT@
    }

    open spec fn prologue_text(ctx: &C) -> Seq<char> {
        Seq::empty()
    }

    open spec fn epilogue_text(ctx: &C) -> Seq<char> {
        Seq::empty()
    }

    open spec fn entry_text(ctx: &C, entry: EntryView) -> Seq<char> {
        jira_entry_text(ctx.ldap_of(entry.user), entry)
    }

    fn format_empty(&mut self, fcx: &C) {
        self.w.append(JIRA_EMPTY_TEXT);
    }

    fn format_prologue(&mut self, fcx: &C) {
        assert(self.w@ =~= self.w@ + Seq::<char>::empty());
    }

    fn format_epilogue(&mut self, fcx: &C) {
        assert(self.w@ =~= self.w@ + Seq::<char>::empty());
    }

    fn format_entry<E: ChangelogEntry>(&mut self, fcx: &C, e: &E) {
        let ghost start = self.w@;
        let ghost v = e.entry_view();
        let ghost numbers = issue_numbers_of(v.issues);
        self.w.append("- ");
        let issues = e.issues();
        let issue_strs = issue_number_strs(issues);
        let title = e.title();
        let show_tags = !is_string_containing_all_substr(title, issue_strs.as_slice());
        let ghost tags: Seq<char> = if show_tags {
            "["@ + join(numbers, ","@) + "] "@
        } else {
            Seq::empty()
        };
        if show_tags {
            self.w.append("[");
            append_joined(&mut self.w, issue_strs.as_slice(), ",");
            self.w.append("] ");
        }
        assert(self.w@ =~= start + "- "@ + tags);
        self.w.append(title);
        self.w.append(" ");
        let user = e.user();
        let ghost before_user = self.w@;
        match fcx.github_id_to_ldap(user) {
            Some(name) => {
                self.w.append("[~");
                self.w.append(name.as_str());
                self.w.append("]\n");
                assert(self.w@ =~= before_user + ("[~"@ + name@ + "]\n"@));
            },
            None => {
                self.w.append(user);
                self.w.append("\n");
                assert(self.w@ =~= before_user + (v.user + "\n"@));
            },
        }
        assert(self.w@ =~= start + jira_entry_text(fcx.ldap_of(v.user), v));
    }
}


/// A Jira changelog of no entries is the line `no changelog`.
pub proof fn lemma_jira_empty_changelog<C: FormatterContext>(ctx: &C)
    ensures
        changelog_text::<C, JiraFormatter>(ctx, Seq::empty()) == "no changelog\n"@,
{
    reveal_strlit("no changelog\n");
}


/// No issue goes missing from a Jira changelog: every issue number of an
/// entry occurs in the entry's line, in its title or in the bracketed list.
pub proof fn lemma_jira_line_mentions_every_issue<C: FormatterContext>(
    ctx: &C,
    e: EntryView,
    k: int,
)
    requires
        0 <= k < e.issues.len(),
    ensures
        crate::text::occurs_in(
            <JiraFormatter as ChangelogFormatter<C>>::entry_text(ctx, e),
            e.issues[k].0,
        ),
{
    let numbers = issue_numbers_of(e.issues);
    let n = e.issues[k].0;
    assert(numbers[k] == n);
    let who = match ctx.ldap_of(e.user) {
        Some(name) => "[~"@ + name + "]\n"@,
        None => e.user + "\n"@,
    };
    if contains_all(e.title, numbers) {
        assert(crate::text::occurs_in(e.title, numbers[k]));
        crate::text::lemma_occurs_in_concat("- "@, e.title, n);
        crate::text::lemma_occurs_in_concat("- "@ + e.title, " "@ + who, n);
        assert(<JiraFormatter as ChangelogFormatter<C>>::entry_text(ctx, e) =~= ("- "@ + e.title)
            + (" "@ + who));
    } else {
        let tags = "["@ + join(numbers, ","@) + "] "@;
        crate::text::lemma_part_occurs_in_join(numbers, ","@, k);
        crate::text::lemma_occurs_in_concat("["@, join(numbers, ","@), n);
        crate::text::lemma_occurs_in_concat("["@ + join(numbers, ","@), "] "@, n);
        crate::text::lemma_occurs_in_concat("- "@, tags, n);
        crate::text::lemma_occurs_in_concat("- "@ + tags, e.title + " "@ + who, n);
        assert(<JiraFormatter as ChangelogFormatter<C>>::entry_text(ctx, e) =~= ("- "@ + tags) + (
        e.title + " "@ + who));
    }
}

/// The issue list of a Jira line: when some issue number of an entry does
/// not occur in its title, the line starts with `- [`, the numbers joined by
/// commas, and `] `; when every one occurs, it starts with `- ` and the title.
pub proof fn lemma_jira_line_start<C: FormatterContext>(ctx: &C, e: EntryView)
    ensures
        ({
            let numbers = e.issues.map_values(|i: (Seq<char>, Seq<char>)| i.0);
            let line = <JiraFormatter as ChangelogFormatter<C>>::entry_text(ctx, e);
            let tags = "- ["@ + join(numbers, ","@) + "] "@;
            let plain = "- "@ + e.title;
            &&& (exists|k: int|
                0 <= k < numbers.len() && !crate::text::occurs_in(e.title, #[trigger] numbers[k]))
                ==> line.len() >= tags.len() && line.subrange(0, tags.len() as int) == tags
            &&& (forall|k: int|
                0 <= k < numbers.len() ==> crate::text::occurs_in(e.title, #[trigger] numbers[k]))
                ==> line.len() >= plain.len() && line.subrange(0, plain.len() as int) == plain
        }),
{
    let numbers = issue_numbers_of(e.issues);
    let line = <JiraFormatter as ChangelogFormatter<C>>::entry_text(ctx, e);
    let who = match ctx.ldap_of(e.user) {
        Some(name) => "[~"@ + name + "]\n"@,
        None => e.user + "\n"@,
    };
    let tags = "- ["@ + join(numbers, ","@) + "] "@;
    let plain = "- "@ + e.title;
    reveal_strlit("- [");
    reveal_strlit("- ");
    reveal_strlit("[");
    if contains_all(e.title, numbers) {
        assert(line =~= plain + (" "@ + who));
        assert(line.subrange(0, plain.len() as int) =~= plain);
    } else {
        assert("- "@ + ("["@ + join(numbers, ","@) + "] "@) =~= tags);
        assert(line =~= tags + (e.title + " "@ + who));
        assert(line.subrange(0, tags.len() as int) =~= tags);
    }
}

} // verus!
