//! Regular expressions.

use vstd::prelude::*;

verus! {

/// The matches of a pattern in a text, by `regex`, or nothing where the pattern is
/// invalid.
pub uninterp spec fn pattern_matches(pattern: Seq<char>, text: Seq<char>) -> Option<Seq<Seq<char>>>;

/// `regex::Regex::find_iter`: the matches of a pattern in a text, from left to right, or
/// nothing where `regex::Regex::new` refuses the pattern. What a pattern matches is not
/// spelled out.
#[verifier::external_body]
pub(crate) fn find_all(pattern: &str, text: &str) -> (r: Option<Vec<String>>)
    ensures
        r.deep_view() == pattern_matches(pattern@, text@),
{
    let regex = regex::Regex::new(pattern).ok()?;
    Some(regex.find_iter(text).map(|m| m.as_str().to_string()).collect())
}

/// The first two groups of the first match of a pattern in a text, by `regex`, or nothing
/// where there is no match or the pattern is invalid.
pub uninterp spec fn pattern_groups(pattern: Seq<char>, text: Seq<char>) -> Option<
    (Option<Seq<char>>, Option<Seq<char>>),
>;

/// `regex::Regex::captures`: what the first two groups of the first match hold, as far as
/// they take part in it, or nothing where there is no match or `regex::Regex::new` refuses
/// the pattern. What a pattern matches is not spelled out.
#[verifier::external_body]
pub(crate) fn find_groups(pattern: &str, text: &str) -> (r: Option<(Option<String>, Option<String>)>)
    ensures
        r.deep_view() == pattern_groups(pattern@, text@),
{
    let groups = regex::Regex::new(pattern).ok()?.captures(text)?;
    let group = |i: usize| groups.get(i).map(|m| m.as_str().to_string());
    Some((group(1), group(2)))
}

} // verus!
