//! Regular-expression search, done by the `regex` crate.
use vstd::prelude::*;
use crate::text::{has_sub, strs};

verus! {

/// What `regex::Regex::new(pattern)` and then `Regex::find_iter(text)` give:
/// `None` where the pattern does not compile, else the text of each
/// successive non-overlapping match.
pub uninterp spec fn regex_matches(pattern: Seq<char>, text: Seq<char>) -> Option<Seq<Seq<char>>>;

/// What `regex::Regex::new(pattern)` and then `Regex::captures_iter(text)` give:
/// `None` where the pattern does not compile, else for each successive match
/// the text of its first capture group, if that group took part.
pub uninterp spec fn regex_group1(pattern: Seq<char>, text: Seq<char>) -> Option<
    Seq<Option<Seq<char>>>,
>;

/// What a vector of optional strings holds, as optional character sequences.
pub open spec fn opt_strs(v: Seq<Option<String>>) -> Seq<Option<Seq<char>>> {
    v.map_values(
        |g: Option<String>|
            match g {
                Some(s) => Some(s@),
                None => None,
            },
    )
}

/// The matches of `pattern` in `text`; none where the pattern does not compile.
pub open spec fn found(pattern: Seq<char>, text: Seq<char>) -> Seq<Seq<char>> {
    match regex_matches(pattern, text) {
        Some(m) => m,
        None => Seq::empty(),
    }
}

/// The first groups of the matches of `pattern` in `text`; none where the
/// pattern does not compile.
pub open spec fn found_groups(pattern: Seq<char>, text: Seq<char>) -> Seq<Option<Seq<char>>> {
    match regex_group1(pattern, text) {
        Some(m) => m,
        None => Seq::empty(),
    }
}

/// Relies on `regex::Regex::new`, then `Regex::find_iter` with `Match::as_str`:
/// an error for a pattern that does not compile; else the successive matches,
/// each a substring of the text searched.
#[verifier::external_body]
fn regex_find_all(pattern: &str, text: &str) -> (r: Option<Vec<String>>)
    ensures
        r is Some <==> regex_matches(pattern@, text@) is Some,
        r matches Some(v) ==> regex_matches(pattern@, text@) == Some(strs(v@)),
        r matches Some(v) ==> forall|i: int|
            0 <= i < v@.len() ==> has_sub(text@, #[trigger] v@[i]@),
{
    match regex::Regex::new(pattern) {
        Ok(re) => Some(re.find_iter(text).map(|m| m.as_str().to_string()).collect()),
        Err(_) => None,
    }
}

/// Relies on `regex::Regex::new`, then `Regex::captures_iter` with
/// `Captures::get(1)`: an error for a pattern that does not compile; else the
/// first group of each successive match, where it took part.
#[verifier::external_body]
fn regex_captures_group1(pattern: &str, text: &str) -> (r: Option<Vec<Option<String>>>)
    ensures
        r is Some <==> regex_group1(pattern@, text@) is Some,
        r matches Some(v) ==> regex_group1(pattern@, text@) == Some(
            opt_strs(v@),
        ),
{
    match regex::Regex::new(pattern) {
        Ok(re) => Some(
            re.captures_iter(text).map(|c| c.get(1).map(|m| m.as_str().to_string())).collect(),
        ),
        Err(_) => None,
    }
}

/// The matches of `pattern` in `text`, each a substring of `text`.
pub fn find_matches(pattern: &str, text: &str) -> (r: Vec<String>)
    ensures
        strs(r@) == found(pattern@, text@),
        forall|i: int| 0 <= i < r@.len() ==> has_sub(text@, #[trigger] r@[i]@),
{
    match regex_find_all(pattern, text) {
        Some(v) => v,
        None => Vec::new(),
    }
}

/// Whether `pattern` matches anywhere in `text`.
pub fn has_match(pattern: &str, text: &str) -> (r: bool)
    ensures
        r == (found(pattern@, text@).len() > 0),
{
    let v = find_matches(pattern, text);
    v.len() > 0
}

/// The first capture groups of the matches of `pattern` in `text`.
pub fn find_groups(pattern: &str, text: &str) -> (r: Vec<Option<String>>)
    ensures
        opt_strs(r@) == found_groups(pattern@, text@),
{
    match regex_captures_group1(pattern, text) {
        Some(v) => v,
        None => {
            let v: Vec<Option<String>> = Vec::new();
            assert(opt_strs(v@) =~= Seq::empty());
            v
        },
    }
}

} // verus!
