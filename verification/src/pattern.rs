//! Patterns: what the pattern engine finds in a text.

use vstd::prelude::*;

verus! {

/// What the pattern engine says of `text` under `pattern`: whether it finds
/// a match, or nothing where the pattern is refused or the search is
/// given up.
pub uninterp spec fn regex_verdict(pattern: Seq<char>, text: Seq<char>) -> Option<bool>;

/// Asks `fancy_regex` whether `pattern` matches somewhere in `text`:
/// `Regex::new`, then `Regex::is_match`. The answer is the engine's own;
/// a pattern that does not compile and a search that the engine breaks off
/// both give `None`.
#[verifier::external_body]
pub(crate) fn regex_is_match(pattern: &str, text: &str) -> (verdict: Option<bool>)
    ensures
        verdict == regex_verdict(pattern@, text@),
{
    match fancy_regex::Regex::new(pattern) {
        Ok(regex) => regex.is_match(text).ok(),
        Err(_) => None,
    }
}

/// Whether a verdict of the pattern engine counts as a match: only a plain
/// yes does.
pub fn holds(verdict: Option<bool>) -> (yes: bool)
    ensures
        yes == (verdict == Some(true)),
{
    match verdict {
        Some(found) => found,
        None => false,
    }
}

/// Whether `pattern` matches somewhere in `text`.
pub open spec fn matches_pattern(pattern: Seq<char>, text: Seq<char>) -> bool {
    regex_verdict(pattern, text) == Some(true)
}

/// How many matches of `pattern`, none overlapping another, the pattern
/// engine finds in `text`; nothing where the pattern is refused or a search
/// is given up.
pub uninterp spec fn regex_count_of(pattern: Seq<char>, text: Seq<char>) -> Option<usize>;

/// Counts the matches of `pattern` in `text` with `fancy_regex`:
/// `Regex::new`, then the items of `Regex::captures_iter`. The count is the
/// engine's own; a pattern that does not compile, and a search that the
/// engine breaks off, give `None`.
#[verifier::external_body]
pub(crate) fn regex_count(pattern: &str, text: &str) -> (count: Option<usize>)
    ensures
        count == regex_count_of(pattern@, text@),
{
    let regex = fancy_regex::Regex::new(pattern).ok()?;
    let found: Result<Vec<()>, fancy_regex::Error> = regex.captures_iter(text).map(
        |item| item.map(|_| ()),
    ).collect();
    found.ok().map(|all| all.len())
}

} // verus!
