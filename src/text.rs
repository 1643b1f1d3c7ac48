//! Syntactic matching on message text: substrings and prefixes.
use vstd::prelude::*;

verus! {

/// `needle` occurs in `hay` as a contiguous run of characters.
pub open spec fn is_substring(needle: Seq<char>, hay: Seq<char>) -> bool {
    exists|i: int|
        0 <= i && i + needle.len() <= hay.len() && #[trigger] hay.subrange(i, i + needle.len())
            == needle
}

/// Relies on `str::contains` with a `&str` pattern: true exactly when the
/// pattern matches a sub-slice of the text.
#[verifier::external_body]
pub(crate) fn contains(hay: &str, needle: &str) -> (r: bool)
    ensures
        r == is_substring(needle@, hay@),
{
    hay.contains(needle)
}

/// Relies on `str::starts_with` with a `&str` pattern: true exactly when the
/// pattern is a prefix of the text.
#[verifier::external_body]
pub(crate) fn starts_with(hay: &str, prefix: &str) -> (r: bool)
    ensures
        r == prefix@.is_prefix_of(hay@),
{
    hay.starts_with(prefix)
}

/// Relies on `format!` writing a `char` and then a `&str` through their
/// `Display` impls, which write the character and the text unchanged.
#[verifier::external_body]
pub(crate) fn prefixed(c: char, name: &str) -> (r: String)
    ensures
        r@ == seq![c] + name@,
{
    format!("{}{}", c, name)
}

} // verus!
