//! Regular-expression searches, made by the `regex` crate.
//!
//! What a search finds is a function of the pattern and the haystack alone.
//! It is named here and not described: the contracts of this module are
//! believed, not proved.

use regex::Regex;
use vstd::prelude::*;

verus! {

/// The texts of a list of names.
pub open spec fn texts(names: Seq<&str>) -> Seq<Seq<char>> {
    Seq::new(names.len(), |i: int| names[i]@)
}

/// What the capture groups called `names` hold at the first match of
/// `pattern` in `haystack`: for each name the text that its group matched,
/// or `None` where no group has that name or the group took no part in the
/// match. The whole is `None` where `pattern` is no regular expression that
/// `regex` compiles, or matches nowhere in `haystack`.
pub uninterp spec fn named_captures(
    pattern: Seq<char>,
    names: Seq<Seq<char>>,
    haystack: Seq<char>,
) -> Option<Seq<Option<Seq<char>>>>;

/// The texts of the successive non-overlapping matches of `pattern` in
/// `haystack`, from left to right; `None` where `pattern` is no regular
/// expression that `regex` compiles.
pub uninterp spec fn all_matches(pattern: Seq<char>, haystack: Seq<char>) -> Option<
    Seq<Seq<char>>,
>;

/// `regex::Regex::captures` on the regex that `regex::Regex::new` makes of
/// `pattern`, read through `regex::Captures::name` for each of `names` in
/// turn. One entry comes back for each name.
#[verifier::external_body]
pub(crate) fn captures(pattern: &str, names: &Vec<&str>, haystack: &str) -> (found: Option<
    Vec<Option<String>>,
>)
    ensures
        found.deep_view() == named_captures(pattern@, texts(names@), haystack@),
        found matches Some(groups) ==> groups.len() == names.len(),
{
    let re = Regex::new(pattern).ok()?;
    re.captures(haystack).map(
        |caps| names.iter().map(|name| caps.name(name).map(|m| m.as_str().to_string())).collect(),
    )
}

/// `regex::Regex::find_iter` on the regex that `regex::Regex::new` makes of
/// `pattern`, each match read through `regex::Match::as_str`.
#[verifier::external_body]
pub(crate) fn find_all(pattern: &str, haystack: &str) -> (found: Option<Vec<String>>)
    ensures
        found.deep_view() == all_matches(pattern@, haystack@),
{
    let re = Regex::new(pattern).ok()?;
    Some(re.find_iter(haystack).map(|m| m.as_str().to_string()).collect())
}

} // verus!
