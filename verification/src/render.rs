//! The changelog of a run, in the format that the run asks for.

use vstd::prelude::*;
use crate::config::OutputFormat;
use crate::entry::{ChangelogEntry, EntryView};
use crate::format::{changelog_text, entry_views};
use crate::jira::JiraFormatter;
use crate::markdown::MarkdownFormatter;
use crate::preference::UserPreference;

verus! {

/// The changelog of `entries` in `format`; `None` for HTML, which has no
/// formatter.
pub open spec fn rendered_changelog(
    format: OutputFormat,
    prefs: &UserPreference,
    entries: Seq<EntryView>,
) -> Option<Seq<char>> {
    match format {
        OutputFormat::Html => None,
        OutputFormat::Jira => Some(changelog_text::<UserPreference, JiraFormatter>(prefs, entries)),
        OutputFormat::Markdown => Some(
            changelog_text::<UserPreference, MarkdownFormatter>(prefs, entries),
        ),
    }
}

/// Writes the changelog of `entries` in `format`, with the LDAP names that
/// `prefs` holds; `None` for HTML.
pub fn render_changelog<E: ChangelogEntry>(
    format: OutputFormat,
    prefs: &UserPreference,
    entries: &[E],
) -> (r: Option<String>)
    ensures
        r.deep_view() == rendered_changelog(format, prefs, entry_views(entries@)),
{
    match format {
        OutputFormat::Html => None,
        OutputFormat::Jira => {
            let mut sink = JiraFormatter::with_writer(String::new());
            sink.format(prefs, entries);
            let out = sink.into_inner();
            assert(out@ =~= changelog_text::<UserPreference, JiraFormatter>(
                prefs,
                entry_views(entries@),
            ));
            Some(out)
        },
        OutputFormat::Markdown => {
            let mut sink = MarkdownFormatter::with_writer(String::new());
            sink.format(prefs, entries);
            let out = sink.into_inner();
            assert(out@ =~= changelog_text::<UserPreference, MarkdownFormatter>(
                prefs,
                entry_views(entries@),
            ));
            Some(out)
        },
    }
}

} // verus!
