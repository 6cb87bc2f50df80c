//! What a run works with: the repository and branches to compare, the token,
//! the output format, and where the user's preferences are kept.

use vstd::prelude::*;
use crate::text::{path_join, join_path, str_equal};

verus! {

/// The settings of one run.
#[derive(Debug)]
pub struct Config {
    pub token: String,
    pub format: OutputFormat,
    pub user: String,
    pub repo: String,
    pub base_branch: String,
    pub head_branch: String,
    /// Show every pull request, deployments and release merges included.
    pub dont_filter: bool,
}

/// How the changelog is written out.
#[derive(Copy, Clone, PartialEq, Eq, Hash, Debug, Structural)]
pub enum OutputFormat {
    Html,
    Jira,
    Markdown,
}

/// The message of a refused format name.
pub const UNKNOWN_OUTPUT_FORMAT: &'static str = "unknown output format";

/// The format that a name on the command line stands for.
pub open spec fn output_format_named(name: Seq<char>) -> Option<OutputFormat> {
    if name == "html"@ {
        Some(OutputFormat::Html)
    } else if name == "jira"@ {
        Some(OutputFormat::Jira)
    } else if name == "markdown"@ {
        Some(OutputFormat::Markdown)
    } else {
        None
    }
}

impl OutputFormat {
    /// The format named `s` (`html`, `jira` or `markdown`), or the message
    /// [`UNKNOWN_OUTPUT_FORMAT`].
    pub fn from_name(s: &str) -> (r: Result<OutputFormat, &'static str>)
        ensures
            match output_format_named(s@) {
                Some(f) => r == Ok::<OutputFormat, &'static str>(f),
                None => r matches Err(e) && e@ == UNKNOWN_OUTPUT_FORMAT@,
            },
    {
        if str_equal(s, "html") {
            Ok(OutputFormat::Html)
        } else if str_equal(s, "jira") {
            Ok(OutputFormat::Jira)
        } else if str_equal(s, "markdown") {
            Ok(OutputFormat::Markdown)
        } else {
            Err(UNKNOWN_OUTPUT_FORMAT)
        }
    }
}

impl std::str::FromStr for OutputFormat {
    type Err = &'static str;

    fn from_str(s: &str) -> (r: Result<Self, Self::Err>)
        ensures
            match output_format_named(s@) {
                Some(f) => r == Ok::<OutputFormat, &'static str>(f),
                None => r matches Err(e) && e@ == UNKNOWN_OUTPUT_FORMAT@,
            },
    {
        OutputFormat::from_name(s)
    }
}

/// The name of the directory, under the home directory, that holds the
/// preferences.
pub const CONFIG_DIR_NAME: &'static str = ".qn-changelog";

/// The name of the preferences file in that directory.
pub const CONFIG_FILE_NAME: &'static str = "config.json";

/// The directory that holds the preferences, under the home directory
/// `home`.
pub fn config_prefix(home: &str) -> (r: String)
    ensures
        r@ == path_join(home@, CONFIG_DIR_NAME@),
{
    join_path(home, CONFIG_DIR_NAME)
}

/// The preferences file, under the home directory `home`.
pub fn config_path(home: &str) -> (r: String)
    ensures
        r@ == path_join(path_join(home@, CONFIG_DIR_NAME@), CONFIG_FILE_NAME@),
{
    let prefix = config_prefix(home);
    join_path(prefix.as_str(), CONFIG_FILE_NAME)
}

/// The token to use, and whether it must be saved to the preferences: the
/// one given on the command line, which is then saved, else the saved one;
/// `None` when there is neither.
pub fn select_token(saved: Option<&str>, given: Option<String>) -> (r: Option<(String, bool)>)
    ensures
        match given {
            Some(t) => r matches Some(p) && p.0@ == t@ && p.1,
            None => match saved {
                Some(s) => r matches Some(p) && p.0@ == s@ && !p.1,
                None => r is None,
            },
        },
{
    match given {
        Some(t) => Some((t, true)),
        None => match saved {
            Some(s) => Some((s.to_owned(), false)),
            None => None,
        },
    }
}

/// The branches to compare, `(base, head)`: swapped for a hotfix.
pub fn compare_branches(base: String, head: String, hotfix: bool) -> (r: (String, String))
    ensures
        hotfix ==> r.0@ == head@ && r.1@ == base@,
        !hotfix ==> r.0@ == base@ && r.1@ == head@,
{
    if hotfix {
        (head, base)
    } else {
        (base, head)
    }
}


/// The preferences file is `config.json` inside the preferences directory.
pub proof fn lemma_config_path_in_prefix(home: Seq<char>)
    ensures
        path_join(path_join(home, CONFIG_DIR_NAME@), CONFIG_FILE_NAME@) == path_join(
            home,
            CONFIG_DIR_NAME@,
        ) + seq!['/'] + CONFIG_FILE_NAME@,
{
    reveal_strlit(".qn-changelog");
    let p = path_join(home, CONFIG_DIR_NAME@);
    assert(p.len() > 0);
    assert(p.last() == 'g');
}

} // verus!
