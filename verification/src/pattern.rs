//! Regular expressions, matched by the `regex` crate. What a pattern matches
//! is not spelled out here: each result has a name, and the functions below
//! are believed to return what the names stand for.
use vstd::prelude::*;
use regex::Regex;

verus! {

/// Whether the pattern compiles and matches somewhere in the text.
pub uninterp spec fn regex_matches(pattern: Seq<char>, text: Seq<char>) -> bool;

/// The successive non-overlapping matches of the pattern in the text, from
/// left to right; none if the pattern does not compile.
pub uninterp spec fn regex_occurrences(pattern: Seq<char>, text: Seq<char>) -> Seq<Seq<char>>;

/// The leftmost match of the pattern in the text, if the pattern compiles and
/// matches.
pub uninterp spec fn regex_first(pattern: Seq<char>, text: Seq<char>) -> Option<Seq<char>>;

/// `Regex::new` followed by `Regex::is_match`: whether the pattern matches
/// anywhere in the text. A pattern that `Regex::new` refuses matches nothing.
/// The result depends on the two strings alone.
#[verifier::external_body]
pub(crate) fn is_match(pattern: &str, text: &str) -> (r: bool)
    ensures
        r == regex_matches(pattern@, text@),
{
    match Regex::new(pattern) {
        Ok(re) => re.is_match(text),
        Err(_) => false,
    }
}

/// `Regex::new` followed by `Regex::find_iter`: the text of every match, in
/// the order in which the iterator yields them. A pattern that `Regex::new`
/// refuses has no match. The result depends on the two strings alone.
#[verifier::external_body]
pub(crate) fn find_all(pattern: &str, text: &str) -> (r: Vec<String>)
    ensures
        r.deep_view() == regex_occurrences(pattern@, text@),
{
    match Regex::new(pattern) {
        Ok(re) => re.find_iter(text).map(|m| m.as_str().to_string()).collect(),
        Err(_) => Vec::new(),
    }
}

/// `Regex::new` followed by `Regex::find`: the text of the leftmost match.
/// A pattern that `Regex::new` refuses has no match. The result depends on
/// the two strings alone.
#[verifier::external_body]
pub(crate) fn find_first(pattern: &str, text: &str) -> (r: Option<String>)
    ensures
        r.deep_view() == regex_first(pattern@, text@),
{
    match Regex::new(pattern) {
        Ok(re) => re.find(text).map(|m| m.as_str().to_string()),
        Err(_) => None,
    }
}

} // verus!
