//! What a changelog formatter writes: text for an empty changelog, or a
//! prologue, one piece per entry, and an epilogue.

use vstd::prelude::*;
use crate::entry::{ChangelogEntry, EntryView};

verus! {

/// Where a formatter learns the LDAP name of a GitHub user.
pub trait FormatterContext {
    /// The LDAP name of the GitHub user `github_id`, if one is known.
    spec fn ldap_of(&self, github_id: Seq<char>) -> Option<Seq<char>>;

    fn github_id_to_ldap(&self, github_id: &str) -> (r: Option<String>)
        ensures
            r.deep_view() == self.ldap_of(github_id@),
    ;
}

/// A writer of changelogs; what it has written so far is `written`.
pub trait ChangelogFormatter<C: FormatterContext>: Sized {
    spec fn written(&self) -> Seq<char>;

    spec fn empty_text(ctx: &C) -> Seq<char>;

    spec fn prologue_text(ctx: &C) -> Seq<char>;

    spec fn epilogue_text(ctx: &C) -> Seq<char>;

    spec fn entry_text(ctx: &C, entry: EntryView) -> Seq<char>;

    fn format_empty(&mut self, fcx: &C)
        ensures
            final(self).written() == old(self).written() + Self::empty_text(fcx),
    ;

    fn format_prologue(&mut self, fcx: &C)
        ensures
            final(self).written() == old(self).written() + Self::prologue_text(fcx),
    ;

    fn format_epilogue(&mut self, fcx: &C)
        ensures
            final(self).written() == old(self).written() + Self::epilogue_text(fcx),
    ;

    fn format_entry<E: ChangelogEntry>(&mut self, fcx: &C, entry: &E)
        ensures
            final(self).written() == old(self).written() + Self::entry_text(fcx, entry.entry_view()),
    ;
}

/// What each entry of `entries` says.
pub open spec fn entry_views<E: ChangelogEntry>(entries: Seq<E>) -> Seq<EntryView> {
    entries.map_values(|e: E| e.entry_view())
}

/// The pieces that formatter `F` writes for `entries`, one after the other.
pub open spec fn entries_text<C: FormatterContext, F: ChangelogFormatter<C>>(
    ctx: &C,
    entries: Seq<EntryView>,
) -> Seq<char>
    decreases entries.len(),
{
    if entries.len() == 0 {
        Seq::empty()
    } else {
        entries_text::<C, F>(ctx, entries.drop_last()) + F::entry_text(ctx, entries.last())
    }
}

/// The whole changelog that formatter `F` writes for `entries`: the text for
/// no entries when there are none, else the prologue, the pieces of the
/// entries in order, and the epilogue.
pub open spec fn changelog_text<C: FormatterContext, F: ChangelogFormatter<C>>(
    ctx: &C,
    entries: Seq<EntryView>,
) -> Seq<char> {
    if entries.len() == 0 {
        F::empty_text(ctx)
    } else {
        F::prologue_text(ctx) + entries_text::<C, F>(ctx, entries) + F::epilogue_text(ctx)
    }
}

/// Writes the changelog of `entries` with `sink` (see [`changelog_text`]).
pub fn format_changelog<C: FormatterContext, F: ChangelogFormatter<C>, E: ChangelogEntry>(
    sink: &mut F,
    ctx: &C,
    entries: &[E],
)
    ensures
        final(sink).written() == old(sink).written() + changelog_text::<C, F>(
            ctx,
            entry_views(entries@),
        ),
{
    let ghost start = sink.written();
    let ghost views = entry_views(entries@);
    if entries.len() == 0 {
        sink.format_empty(ctx);
        return;
    }
    sink.format_prologue(ctx);
    let mut i: usize = 0;
    while i < entries.len()
        invariant
            i <= entries.len(),
            views == entry_views(entries@),
            sink.written() == start + F::prologue_text(ctx) + entries_text::<C, F>(
                ctx,
                views.take(i as int),
            ),
        decreases entries.len() - i,
    {
        sink.format_entry(ctx, &entries[i]);
        assert(views.take(i + 1).drop_last() =~= views.take(i as int));
        assert(views.take(i + 1).last() == entries@[i as int].entry_view());
        i += 1;
    }
    assert(views.take(entries.len() as int) =~= views);
    sink.format_epilogue(ctx);
}


/// Writing two lists of entries one after the other writes the same text as
/// writing the two lists joined.
pub proof fn lemma_entries_text_concat<C: FormatterContext, F: ChangelogFormatter<C>>(
    ctx: &C,
    a: Seq<EntryView>,
    b: Seq<EntryView>,
)
    ensures
        entries_text::<C, F>(ctx, a + b) == entries_text::<C, F>(ctx, a) + entries_text::<C, F>(
            ctx,
            b,
        ),
    decreases b.len(),
{
    if b.len() == 0 {
        assert(a + b =~= a);
        assert(entries_text::<C, F>(ctx, a) + entries_text::<C, F>(ctx, b) =~= entries_text::<
            C,
            F,
        >(ctx, a));
    } else {
        assert((a + b).drop_last() =~= a + b.drop_last());
        assert((a + b).last() == b.last());
        lemma_entries_text_concat::<C, F>(ctx, a, b.drop_last());
        assert(entries_text::<C, F>(ctx, a + b) =~= entries_text::<C, F>(ctx, a)
            + entries_text::<C, F>(ctx, b));
    }
}

} // verus!
