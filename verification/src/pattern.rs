//! The one point where the library leans on the regex crate: compiling a
//! pattern and testing a value against it. Both are deterministic functions
//! of their string arguments, named here so that contracts can speak of them.

use vstd::prelude::*;

verus! {

/// Whether the pattern compiles as a regular expression.
pub uninterp spec fn regex_valid(p: Seq<char>) -> bool;

/// Whether the (valid) pattern matches anywhere in the text.
pub uninterp spec fn regex_match(p: Seq<char>, s: Seq<char>) -> bool;

/// Relies on regex::Regex::new — a pattern either fails to compile or yields
/// a regex — and regex::Regex::is_match — true iff there is a match for the
/// regex anywhere in the haystack. Both results depend on the pattern and the
/// haystack alone.
#[verifier::external_body]
pub(crate) fn regex_try_match(pattern: &str, value: &str) -> (r: Option<bool>)
    ensures
        r is Some <==> regex_valid(pattern@),
        r matches Some(b) ==> b == regex_match(pattern@, value@),
{
    match regex::Regex::new(pattern) {
        Ok(re) => Some(re.is_match(value)),
        Err(_) => None,
    }
}

} // verus!
