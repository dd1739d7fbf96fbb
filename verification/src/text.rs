//! Text: the few things the library asks of strings, each a thin shell over
//! the standard library whose contract is taken on trust.

use vstd::prelude::*;

verus! {

/// Compares two string slices with `str`'s `==`.
///
/// Trusted: the standard library documents that two string slices are equal
/// when they hold the same characters.
#[verifier::external_body]
pub(crate) fn same_text(a: &str, b: &str) -> (same: bool)
    ensures
        same == (a@ == b@),
{
    a == b
}

/// Collects characters into a `String` with `String::from_iter`.
///
/// Trusted: the standard library documents that the string holds the
/// characters of the iterator, in order.
#[verifier::external_body]
pub(crate) fn string_of(chars: &Vec<char>) -> (text: String)
    ensures
        text@ == chars@,
{
    String::from_iter(chars.iter())
}

/// The characters of the parts, one part after the other.
pub open spec fn joined_text(parts: Seq<&str>) -> Seq<char>
    decreases parts.len(),
{
    if parts.len() == 0 {
        Seq::empty()
    } else {
        joined_text(parts.drop_last()) + parts.last()@
    }
}

/// Joins string slices into one `String` with the slice method `concat`.
///
/// Trusted: the standard library documents that `concat` flattens the
/// slices into one string, in order.
#[verifier::external_body]
pub(crate) fn joined(parts: &[&str]) -> (text: String)
    ensures
        text@ == joined_text(parts@),
{
    parts.concat()
}

} // verus!
