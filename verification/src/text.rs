use vstd::prelude::*;

verus! {

/// Names what `str::to_lowercase` returns for a string: its lowercase
/// equivalent under Unicode's `Lowercase` property.
pub uninterp spec fn lowercase(s: Seq<char>) -> Seq<char>;

/// `needle` matches a contiguous part of `haystack`.
pub open spec fn occurs_in(needle: Seq<char>, haystack: Seq<char>) -> bool {
    exists|i: int|
        0 <= i && i + needle.len() <= haystack.len() && #[trigger] haystack.subrange(
            i,
            i + needle.len(),
        ) == needle
}

/// Calls `str::to_lowercase`. Claimed: the result is `lowercase` of the
/// argument; nothing is said of what `lowercase` computes.
#[verifier::external_body]
pub(crate) fn to_lowercase(s: &str) -> (r: String)
    ensures
        r@ == lowercase(s@),
{
    s.to_lowercase()
}

/// Calls `str::contains` with a string pattern. Claimed, as its
/// documentation says: the result tells whether `needle` matches a sub-slice
/// of `haystack`.
#[verifier::external_body]
pub(crate) fn contains_str(haystack: &str, needle: &str) -> (r: bool)
    ensures
        r == occurs_in(needle@, haystack@),
{
    haystack.contains(needle)
}

} // verus!
