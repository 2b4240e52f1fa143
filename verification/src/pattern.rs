//! Pattern matching for `Rule::Format`, delegated to the `regex` crate.
//!
//! A `Format` rule accepts a value only when the whole value matches the
//! pattern, so the caller's pattern is compiled in an anchored form,
//! `\A(?:p)\z`.  Whether that form compiles, and whether it matches a
//! given text, are functions of the two strings alone; both are given
//! names here and every contract that mentions pattern rules speaks
//! through these names.

use vstd::prelude::*;

verus! {

/// The pattern `pattern`, in its anchored form `\A(?:pattern)\z`, is one
/// that `regex::Regex::new` accepts.
pub uninterp spec fn pattern_ok(pattern: Seq<char>) -> bool;

/// The whole of `text` matches `pattern`: the anchored form
/// `\A(?:pattern)\z` matches `text`, as `regex::Regex::is_match` decides
/// it.
pub uninterp spec fn full_match(pattern: Seq<char>, text: Seq<char>) -> bool;

/// Relies on `regex::Regex::new` (which fails exactly on the patterns it
/// does not accept, a property of the pattern string alone; applied here
/// to the anchored form of the caller's pattern) and on
/// `regex::Regex::is_match` (whose result depends only on the compiled
/// pattern and the haystack; with the absolute anchors it holds exactly
/// when the whole text matches the caller's pattern).
#[verifier::external_body]
pub(crate) fn regex_full_match(pattern: &str, text: &str) -> (r: Option<bool>)
    ensures
        r is Some <==> pattern_ok(pattern@),
        r matches Some(b) ==> b == full_match(pattern@, text@),
{
    let anchored = format!("\\A(?:{})\\z", pattern);
    match regex::Regex::new(&anchored) {
        Ok(re) => Some(re.is_match(text)),
        Err(_) => None,
    }
}

} // verus!
