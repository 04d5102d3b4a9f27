//! Pattern matching, done by the `regex` crate.

use vstd::prelude::*;

verus! {

/// Whether `regex` accepts `pattern` where a pointer has `pointer_bits` bits:
/// the pattern must be well formed, and the program compiled from it must
/// stay within the size limit of `regex`. That limit is counted in bytes, so
/// beside the pattern the width of a pointer has a say.
pub uninterp spec fn regex_compiles(pattern: Seq<char>, pointer_bits: nat) -> bool;

/// What `regex` finds when it searches `haystack` for `pattern`, where the
/// pattern compiles: one entry for each successive non-overlapping match,
/// in the order of the text; in each entry one item for each capture group
/// of the pattern, the whole match being group zero; in each item the text
/// that the group matched, or `None` where the group took no part in the
/// match.
pub uninterp spec fn regex_captures(pattern: Seq<char>, haystack: Seq<char>) -> Seq<
    Seq<Option<Seq<char>>>,
>;

/// The texts held by the capture groups of one match.
pub open spec fn group_views(groups: Seq<Option<String>>) -> Seq<Option<Seq<char>>> {
    groups.map_values(
        |g: Option<String>|
            match g {
                Some(text) => Some(text@),
                None => None,
            },
    )
}

/// The texts held by the capture groups of a list of matches.
pub open spec fn capture_views(captures: Seq<Vec<Option<String>>>) -> Seq<Seq<Option<Seq<char>>>> {
    captures.map_values(|groups: Vec<Option<String>>| group_views(groups@))
}

/// The text of capture group `index`, or `None` where the group took no
/// part in the match or the pattern has no such group.
pub open spec fn group_at(groups: Seq<Option<Seq<char>>>, index: int) -> Option<Seq<char>> {
    if 0 <= index < groups.len() {
        groups[index]
    } else {
        None
    }
}

/// `Regex::new` followed by `Regex::captures_iter`, with the text of every
/// group of every match copied out through `Captures::iter` and
/// `Match::as_str`.
///
/// The result is `None` exactly where `regex` refuses the pattern, which
/// [`regex_compiles`] names. Otherwise it holds what [`regex_captures`]
/// names: the search depends on the pattern and the text alone.
#[verifier::external_body]
pub(crate) fn captures_of(pattern: &str, haystack: &str) -> (found: Option<
    Vec<Vec<Option<String>>>,
>)
    ensures
        found is Some <==> regex_compiles(pattern@, usize::BITS as nat),
        found matches Some(all) ==> capture_views(all@) == regex_captures(pattern@, haystack@),
{
    let re = regex::Regex::new(pattern).ok()?;
    Some(
        re.captures_iter(haystack)
            .map(|found| found.iter().map(|g| g.map(|m| m.as_str().to_owned())).collect())
            .collect(),
    )
}

/// Whether `regex` finds a match of `pattern` anywhere in `haystack`, where
/// the pattern compiles.
pub uninterp spec fn regex_is_match(pattern: Seq<char>, haystack: Seq<char>) -> bool;

/// `Regex::new` followed by `Regex::is_match`.
///
/// The result is `None` exactly where `regex` refuses the pattern, which
/// [`regex_compiles`] names. Otherwise it is what [`regex_is_match`] names:
/// the search depends on the pattern and the text alone.
#[verifier::external_body]
pub(crate) fn is_match_of(pattern: &str, haystack: &str) -> (found: Option<bool>)
    ensures
        found is Some <==> regex_compiles(pattern@, usize::BITS as nat),
        found matches Some(matched) ==> matched == regex_is_match(pattern@, haystack@),
{
    let re = regex::Regex::new(pattern).ok()?;
    Some(re.is_match(haystack))
}

/// Reads capture group `index` of one match.
pub fn group(groups: &Vec<Option<String>>, index: usize) -> (text: Option<&String>)
    ensures
        match text {
            Some(t) => group_at(group_views(groups@), index as int) == Some(t@),
            None => group_at(group_views(groups@), index as int) is None,
        },
{
    if index < groups.len() {
        groups[index].as_ref()
    } else {
        None
    }
}

} // verus!
