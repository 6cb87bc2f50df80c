//! Changelogs in Markdown.

use vstd::prelude::*;
use vstd::string::*;
use crate::entry::{ChangelogEntry, EntryView, CommonIssue, issue_views};
use crate::format::{ChangelogFormatter, FormatterContext, changelog_text, entry_views, format_changelog};
use crate::text::{join, decimal, append_decimal};

verus! {

/// Writes changelogs in Markdown into a string buffer.
pub struct MarkdownFormatter {
    w: String,
}

/// The Markdown link to one issue: `[number](link)`.
pub open spec fn issue_link(issue: (Seq<char>, Seq<char>)) -> Seq<char> {
    "["@ + issue.0 + "]("@ + issue.1 + ")"@
}

/// The line of one entry: a bullet, the links to its issues in brackets,
/// the title, the pull request's number and the user.
pub open spec fn markdown_entry_text(e: EntryView) -> Seq<char> {
    "* ["@ + join(e.issues.map_values(|i: (Seq<char>, Seq<char>)| issue_link(i)), ","@) + "] "@
        + e.title + " #"@ + decimal(e.number as nat) + " (@"@ + e.user + ")\n"@
}

impl MarkdownFormatter {
    /// A formatter that appends to `w`.
    pub fn with_writer(w: String) -> (r: Self)
        ensures
            r.output() == w@,
    {
        MarkdownFormatter { w }
    }

    /// What the buffer holds.
    pub closed spec fn output(&self) -> Seq<char> {
        self.w@
    }

    /// The buffer, with all that was written to it.
    pub fn into_inner(self) -> (r: String)
        ensures
            r@ == self.output(),
    {
        self.w
    }

    /// Writes the changelog of `entries`.
    pub fn format<C: FormatterContext, E: ChangelogEntry>(&mut self, ctx: &C, entries: &[E])
        ensures
            final(self).output() == old(self).output() + changelog_text::<C, MarkdownFormatter>(
                ctx,
                entry_views(entries@),
            ),
    {
        format_changelog::<C, MarkdownFormatter, E>(self, ctx, entries);
    }
}

/// Appends the links to `issues`, separated by commas.
fn append_issue_links(out: &mut String, issues: &[CommonIssue])
    ensures
        final(out)@ == old(out)@ + join(
            issue_views(issues@).map_values(|i: (Seq<char>, Seq<char>)| issue_link(i)),
            ","@,
        ),
{
    let ghost start = out@;
    let ghost ls = issue_views(issues@).map_values(|i: (Seq<char>, Seq<char>)| issue_link(i));
    let mut k: usize = 0;
    while k < issues.len()
        invariant
            k <= issues@.len(),
            ls == issue_views(issues@).map_values(|i: (Seq<char>, Seq<char>)| issue_link(i)),
            out@ == start + join(ls.take(k as int), ","@),
        decreases issues.len() - k,
    {
        let ghost before = out@;
        if k > 0 {
            out.append(",");
        }
        let ghost after_sep = out@;
        out.append("[");
        out.append(issues[k].number());
        out.append("](");
        out.append(issues[k].link());
        out.append(")");
        proof {
            assert(out@ =~= after_sep + issue_link(issues@[k as int]@));
            let t = ls.take(k + 1);
            assert(t.drop_last() =~= ls.take(k as int));
            assert(t.last() == issue_link(issues@[k as int]@));
            if k == 0 {
                assert(ls.take(0) =~= Seq::<Seq<char>>::empty());
                assert(join(ls.take(0), ","@) =~= Seq::<char>::empty());
                assert(out@ =~= start + join(t, ","@));
            } else {
                assert(out@ =~= start + join(t, ","@));
            }
        }
        k += 1;
    }
    assert(ls.take(issues.len() as int) =~= ls);
}

impl<C: FormatterContext> ChangelogFormatter<C> for MarkdownFormatter {
    open spec fn written(&self) -> Seq<char> {
        self.output()
    }

    open spec fn empty_text(ctx: &C) -> Seq<char> {
        Seq::empty()
    }

    open spec fn prologue_text(ctx: &C) -> Seq<char> {
        Seq::empty()
    }

    open spec fn epilogue_text(ctx: &C) -> Seq<char> {
        Seq::empty()
    }

    open spec fn entry_text(ctx: &C, entry: EntryView) -> Seq<char> {
        markdown_entry_text(entry)
    }

    fn format_empty(&mut self, fcx: &C) {
        assert(self.w@ =~= self.w@ + Seq::<char>::empty());
    }

    fn format_prologue(&mut self, fcx: &C) {
        assert(self.w@ =~= self.w@ + Seq::<char>::empty());
    }

    fn format_epilogue(&mut self, fcx: &C) {
        assert(self.w@ =~= self.w@ + Seq::<char>::empty());
    }

    fn format_entry<E: ChangelogEntry>(&mut self, fcx: &C, e: &E) {
        let ghost start = self.w@;
        let ghost v = e.entry_view();
        self.w.append("* [");
        append_issue_links(&mut self.w, e.issues());
        self.w.append("] ");
        self.w.append(e.title());
        self.w.append(" #");
        append_decimal(&mut self.w, e.pr_number());
        self.w.append(" (@");
        self.w.append(e.user());
        self.w.append(")\n");
        assert(self.w@ =~= start + markdown_entry_text(v));
    }
}


/// A Markdown changelog of no entries is empty.
pub proof fn lemma_markdown_empty_changelog<C: FormatterContext>(ctx: &C)
    ensures
        changelog_text::<C, MarkdownFormatter>(ctx, Seq::empty()) == Seq::<char>::empty(),
{
}


/// The links of a Markdown line: every issue of the entry has its link
/// `[number](link)` in the line, and each two neighbouring issues stand
/// there in order with exactly one comma between their links.
pub proof fn lemma_markdown_line_links<C: FormatterContext>(ctx: &C, e: EntryView, k: int)
    requires
        0 <= k < e.issues.len(),
    ensures
        crate::text::occurs_in(
            <MarkdownFormatter as ChangelogFormatter<C>>::entry_text(ctx, e),
            "["@ + e.issues[k].0 + "]("@ + e.issues[k].1 + ")"@,
        ),
        k + 1 < e.issues.len() ==> crate::text::occurs_in(
            <MarkdownFormatter as ChangelogFormatter<C>>::entry_text(ctx, e),
            ("["@ + e.issues[k].0 + "]("@ + e.issues[k].1 + ")"@) + ","@ + ("["@ + e.issues[k
                + 1].0 + "]("@ + e.issues[k + 1].1 + ")"@),
        ),
{
    let ls = e.issues.map_values(|i: (Seq<char>, Seq<char>)| issue_link(i));
    let line = <MarkdownFormatter as ChangelogFormatter<C>>::entry_text(ctx, e);
    let tail = "] "@ + e.title + " #"@ + decimal(e.number as nat) + " (@"@ + e.user + ")\n"@;
    let body = join(ls, ","@);
    assert(line =~= "* ["@ + body + tail);
    assert(ls[k] == issue_link(e.issues[k]));
    crate::text::lemma_part_occurs_in_join(ls, ","@, k);
    crate::text::lemma_occurs_in_concat("* ["@, body, ls[k]);
    crate::text::lemma_occurs_in_concat("* ["@ + body, tail, ls[k]);
    if k + 1 < e.issues.len() {
        let pair = ls[k] + ","@ + ls[k + 1];
        assert(ls[k + 1] == issue_link(e.issues[k + 1]));
        crate::text::lemma_neighbours_in_join(ls, ","@, k);
        crate::text::lemma_occurs_in_concat("* ["@, body, pair);
        crate::text::lemma_occurs_in_concat("* ["@ + body, tail, pair);
    }
}

} // verus!
