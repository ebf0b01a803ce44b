//! The boundary to the regular-expression engine. What the engine computes is
//! not proved here: it is named, and the rest of the crate reasons over the
//! names.
use regex::Regex;
use vstd::prelude::*;

verus! {

/// Whether `Regex::new` accepts `pattern`, that is, returns `Ok` for it.
pub uninterp spec fn regex_accepts(pattern: Seq<char>) -> bool;

/// For a pattern that the engine accepts: what `Regex::captures` finds in
/// `haystack`, read at capture group `group`. It is the text of that group in
/// the leftmost match, or `None` where nothing matches, where the pattern has
/// no such group, or where the group took no part in the match.
pub uninterp spec fn regex_capture(pattern: Seq<char>, haystack: Seq<char>, group: nat) -> Option<
    Seq<char>,
>;

/// The characters of an optional string.
pub open spec fn text_of(found: Option<String>) -> Option<Seq<char>> {
    match found {
        Some(s) => Some(s@),
        None => None,
    }
}

/// What a search for `pattern` in `haystack` yields at `group`: nothing where
/// the engine refuses the pattern, else what it captures.
pub open spec fn capture(pattern: Seq<char>, haystack: Seq<char>, group: nat) -> Option<
    Seq<char>,
> {
    if regex_accepts(pattern) {
        regex_capture(pattern, haystack, group)
    } else {
        None
    }
}

/// Calls `regex::Regex::new` and tells whether it returned `Ok`. Trusted: the
/// answer depends on the pattern alone, so it is `regex_accepts` of it.
#[verifier::external_body]
pub(crate) fn pattern_compiles(pattern: &str) -> (ok: bool)
    ensures
        ok == regex_accepts(pattern@),
{
    Regex::new(pattern).is_ok()
}

/// Compiles `pattern` with `regex::Regex::new`, searches `haystack` with
/// `Regex::captures` and copies out the text of `group` (`Captures::get`,
/// `Match::as_str`). Trusted: a refused pattern yields `None`; for an accepted
/// one the result depends on the three arguments alone and is `regex_capture`
/// of them.
#[verifier::external_body]
pub(crate) fn capture_group(pattern: &str, haystack: &str, group: usize) -> (found: Option<String>)
    ensures
        regex_accepts(pattern@) ==> text_of(found) == regex_capture(
            pattern@,
            haystack@,
            group as nat,
        ),
        !regex_accepts(pattern@) ==> found is None,
{
    match Regex::new(pattern) {
        Ok(re) => match re.captures(haystack) {
            Some(groups) => match groups.get(group) {
                Some(hit) => Some(hit.as_str().to_string()),
                None => None,
            },
            None => None,
        },
        Err(_) => None,
    }
}

} // verus!
