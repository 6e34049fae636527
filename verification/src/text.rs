//! String predicates used across the gateway, and the contracts under which
//! the standard library's string functions are called.

use vstd::prelude::*;

verus! {

/// `text` begins with `prefix`.
pub open spec fn has_prefix(text: Seq<char>, prefix: Seq<char>) -> bool {
    prefix.len() <= text.len() && text.subrange(0, prefix.len() as int) == prefix
}

/// What is left of `text` once the first `prefix.len()` characters are gone.
pub open spec fn without_prefix(text: Seq<char>, prefix: Seq<char>) -> Seq<char> {
    text.subrange(prefix.len() as int, text.len() as int)
}

/// `needle` occurs somewhere in `text` as a run of consecutive characters.
pub open spec fn has_substring(text: Seq<char>, needle: Seq<char>) -> bool {
    exists|start: int| 0 <= start <= text.len() && has_prefix(#[trigger] text.skip(start), needle)
}

/// Trusted: `str`'s `PartialEq::eq` from the standard library. Two string
/// slices compare equal exactly when they hold the same characters.
pub assume_specification[ <str as PartialEq>::eq ](a: &str, b: &str) -> (equal: bool)
    ensures
        equal == (a@ == b@),
;

/// Trusted: wraps `str::strip_prefix` for a string pattern. The standard
/// library returns the rest of the string behind the prefix when the string
/// starts with it, and `None` when it does not.
#[verifier::external_body]
pub(crate) fn strip_prefix<'a>(text: &'a str, prefix: &str) -> (rest: Option<&'a str>)
    ensures
        has_prefix(text@, prefix@) ==> rest.is_some() && rest.unwrap()@ == without_prefix(
            text@,
            prefix@,
        ),
        !has_prefix(text@, prefix@) ==> rest.is_none(),
{
    text.strip_prefix(prefix)
}

/// Trusted: wraps `str::contains` for a string pattern. The standard library
/// reports whether the pattern matches a sub-slice of the string.
#[verifier::external_body]
pub(crate) fn contains_str(text: &str, needle: &str) -> (found: bool)
    ensures
        found == has_substring(text@, needle@),
{
    text.contains(needle)
}

/// `text` with every match of `from` replaced by `to`. Matches are taken from
/// the left and do not overlap.
pub open spec fn replaced(text: Seq<char>, from: Seq<char>, to: Seq<char>) -> Seq<char>
    decreases text.len(),
{
    if from.len() == 0 || text.len() == 0 {
        text
    } else if has_prefix(text, from) {
        to + replaced(text.skip(from.len() as int), from, to)
    } else {
        seq![text[0]] + replaced(text.skip(1), from, to)
    }
}

/// Trusted: wraps `str::replace` for a string pattern that is not empty. The
/// standard library replaces all matches of the pattern with the other
/// string, and returns the result as a new string.
#[verifier::external_body]
pub(crate) fn replace_all(text: &str, from: &str, to: &str) -> (result: String)
    requires
        from@.len() > 0,
    ensures
        result@ == replaced(text@, from@, to@),
{
    text.replace(from, to)
}

/// Whether two strings hold the same characters.
pub fn same_text(a: &str, b: &str) -> (same: bool)
    ensures
        same == (a@ == b@),
{
    *a == *b
}

/// Joins two strings into a freshly allocated one.
pub fn concat(a: &str, b: &str) -> (joined: String)
    ensures
        joined@ == a@ + b@,
{
    let mut joined = a.to_string();
    vstd::string::StringExecFns::append(&mut joined, b);
    joined
}

} // verus!
