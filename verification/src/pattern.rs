//! Matching text against a regular expression with the `regex` crate.

use vstd::prelude::*;

verus! {

/// What the `regex` crate finds of `pattern` in `text`: one entry for each
/// match, from left to right, and in it one entry for each capture group
/// of the pattern, group 0 first, with the text that the group matched or
/// `None` where it took no part.  `None` where the crate rejects the pattern.
pub uninterp spec fn regex_captures(pattern: Seq<char>, text: Seq<char>) -> Option<
    Seq<Seq<Option<Seq<char>>>>,
>;

/// Compiles `pattern` with `regex::Regex::new` and walks
/// `Regex::captures_iter` over `text`, copying out of every match the text
/// of each group.  Trusted: the outcome depends on the two arguments alone.
#[verifier::external_body]
pub(crate) fn captures_iter(pattern: &str, text: &str) -> (found: Option<Vec<Vec<Option<String>>>>)
    ensures
        match found {
            Some(matches) => regex_captures(pattern@, text@) == Some(matches.deep_view()),
            None => regex_captures(pattern@, text@) is None,
        },
{
    let regex = regex::Regex::new(pattern).ok()?;
    Some(
        regex.captures_iter(text).map(
            |groups| groups.iter().map(|group| group.map(|m| m.as_str().to_string())).collect(),
        ).collect(),
    )
}

} // verus!
