//! Regular-expression searches, made by the `regex` crate.
//!
//! Each function compiles its pattern with `regex::Regex::new` and runs one
//! search. What the search finds is not restated here: it is named by an
//! uninterpreted spec function of the pattern and the text, and the callers
//! state their own results over that name.

use vstd::prelude::*;

verus! {

/// What `regex::Regex::new(pattern)` followed by `is_match(text)` gives:
/// `None` when the pattern does not compile, otherwise whether the regex
/// matches somewhere in `text`.
pub uninterp spec fn regex_is_match(pattern: Seq<char>, text: Seq<char>) -> Option<bool>;

/// What `regex::Regex::new(pattern)` followed by `captures(text)` gives:
/// `None` when the pattern does not compile, otherwise the leftmost-first
/// match, if there is one, as the text of each capture group in the order of
/// its opening parenthesis (group 0 being the whole match), `None` for a
/// group that took no part in the match.
pub uninterp spec fn regex_first_captures(pattern: Seq<char>, text: Seq<char>) -> Option<
    Option<Seq<Option<Seq<char>>>>,
>;

/// What `regex::Regex::new(pattern)` followed by `captures_iter(text)`
/// gives: `None` when the pattern does not compile, otherwise the successive
/// non-overlapping matches, each as its capture groups in the form that
/// [`regex_first_captures`] describes.
pub uninterp spec fn regex_all_captures(pattern: Seq<char>, text: Seq<char>) -> Option<
    Seq<Seq<Option<Seq<char>>>>,
>;

/// Calls `regex::Regex::new` and `regex::Regex::is_match`. Trusted: the
/// result is claimed to be [`regex_is_match`] of the arguments, nothing more.
#[verifier::external_body]
pub(crate) fn search(pattern: &str, text: &str) -> (r: Option<bool>)
    ensures
        r == regex_is_match(pattern@, text@),
{
    match regex::Regex::new(pattern) {
        Ok(re) => Some(re.is_match(text)),
        Err(_) => None,
    }
}

/// Calls `regex::Regex::new` and `regex::Regex::captures`, and copies each
/// group's text out. Trusted: the result is claimed to be
/// [`regex_first_captures`] of the arguments, nothing more.
#[verifier::external_body]
pub(crate) fn first_captures(pattern: &str, text: &str) -> (r: Option<
    Option<Vec<Option<String>>>,
>)
    ensures
        r.deep_view() == regex_first_captures(pattern@, text@),
{
    match regex::Regex::new(pattern) {
        Ok(re) => Some(
            re.captures(text).map(|c| c.iter().map(|g| g.map(|m| m.as_str().to_string())).collect()),
        ),
        Err(_) => None,
    }
}

/// Calls `regex::Regex::new` and `regex::Regex::captures_iter`, and copies
/// each group's text out. Trusted: the result is claimed to be
/// [`regex_all_captures`] of the arguments, nothing more.
#[verifier::external_body]
pub(crate) fn all_captures(pattern: &str, text: &str) -> (r: Option<Vec<Vec<Option<String>>>>)
    ensures
        r.deep_view() == regex_all_captures(pattern@, text@),
{
    match regex::Regex::new(pattern) {
        Ok(re) => Some(
            re.captures_iter(text).map(
                |c| c.iter().map(|g| g.map(|m| m.as_str().to_string())).collect(),
            ).collect(),
        ),
        Err(_) => None,
    }
}

} // verus!
