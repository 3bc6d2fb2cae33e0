//! Regular-expression matching, done by the `regex` crate.
use vstd::prelude::*;

verus! {

/// The text of capture group `group` in the leftmost-first match of the regular expression
/// `pattern` in `haystack`, as `regex::Regex::captures` finds it; `None` where the pattern does not
/// compile, where it does not match, or where the group takes no part in the match.
pub uninterp spec fn regex_group_of(pattern: Seq<char>, haystack: Seq<char>, group: nat) -> Option<
    Seq<char>,
>;

/// Whether the regular expression `pattern` compiles and matches somewhere in `haystack`, as
/// `regex::Regex::is_match` answers.
pub uninterp spec fn regex_matches_of(pattern: Seq<char>, haystack: Seq<char>) -> bool;

/// Compiles `pattern` with `regex::Regex::new`, finds its leftmost-first match in `haystack` with
/// `Regex::captures` and returns the text of capture group `group` of it (`Captures::get`,
/// `Match::as_str`). The contract claims only that the result is `regex_group_of` of the arguments:
/// the regex crate computes it from them alone. A pattern that does not compile gives `None`.
#[verifier::external_body]
pub(crate) fn regex_group(pattern: &str, haystack: &str, group: usize) -> (res: Option<String>)
    ensures
        res.deep_view() == regex_group_of(pattern@, haystack@, group as nat),
{
    let re = match regex::Regex::new(pattern) {
        Ok(re) => re,
        Err(_) => return None,
    };
    match re.captures(haystack) {
        Some(caps) => match caps.get(group) {
            Some(m) => Some(m.as_str().to_string()),
            None => None,
        },
        None => None,
    }
}

/// Compiles `pattern` with `regex::Regex::new` and asks `Regex::is_match` whether it matches
/// somewhere in `haystack`. The contract claims only that the answer is `regex_matches_of` of the
/// arguments. A pattern that does not compile gives `false`.
#[verifier::external_body]
pub(crate) fn regex_is_match(pattern: &str, haystack: &str) -> (res: bool)
    ensures
        res == regex_matches_of(pattern@, haystack@),
{
    match regex::Regex::new(pattern) {
        Ok(re) => re.is_match(haystack),
        Err(_) => false,
    }
}

} // verus!
