//! What this library takes on trust: the results of compiling, searching
//! and replacing with a regular expression, and of quoting a path.
//!
//! Nothing here is proved. Each result has a name, and the contracts of
//! the callers speak of the result by that name.

use crate::text::text_of;
use vstd::prelude::*;

verus! {

/// Whether `pattern` is a regular expression that the `regex` crate
/// compiles.
pub uninterp spec fn regex_compiles(pattern: Seq<char>) -> bool;

/// Whether the regular expression `pattern` matches somewhere in
/// `haystack`.
pub uninterp spec fn regex_is_match(pattern: Seq<char>, haystack: Seq<char>) -> bool;

/// `haystack` with the leftmost match of the regular expression `pattern`
/// replaced by `rep`, in which `$name` stands for a capture group.
pub uninterp spec fn regex_replace(
    pattern: Seq<char>,
    haystack: Seq<char>,
    rep: Seq<char>,
) -> Seq<char>;

/// The path `text` between double quotes, with the characters escaped
/// that Rust escapes when it prints a path for debugging.
pub uninterp spec fn debug_quoted(text: Seq<char>) -> Seq<char>;

/// `Regex::new` and `Regex::is_match` of the `regex` crate: compiles
/// `pattern` and searches `haystack` for a match. The result is `None`
/// when `pattern` does not compile, which [`regex_compiles`] names, and
/// else what [`regex_is_match`] names.
#[verifier::external_body]
pub(crate) fn is_match(pattern: &str, haystack: &str) -> (r: Option<bool>)
    ensures
        r == if regex_compiles(pattern@) {
            Some(regex_is_match(pattern@, haystack@))
        } else {
            None
        },
{
    match regex::Regex::new(pattern) {
        Ok(re) => Some(re.is_match(haystack)),
        Err(_) => None,
    }
}

/// `Regex::new` and `Regex::replace` of the `regex` crate: compiles
/// `pattern` and replaces its leftmost match in `haystack` by `rep`. The
/// result is `None` when `pattern` does not compile, and else what
/// [`regex_replace`] names: `haystack` itself when `pattern` matches
/// nowhere in it.
#[verifier::external_body]
pub(crate) fn replace_first(pattern: &str, haystack: &str, rep: &str) -> (r: Option<String>)
    ensures
        text_of(r) == if regex_compiles(pattern@) {
            Some(regex_replace(pattern@, haystack@, rep@))
        } else {
            None
        },
        regex_compiles(pattern@) && !regex_is_match(pattern@, haystack@) ==> text_of(r) == Some(
            haystack@,
        ),
{
    match regex::Regex::new(pattern) {
        Ok(re) => Some(re.replace(haystack, rep).into_owned()),
        Err(_) => None,
    }
}

/// The `Debug` format of `std::path::Path`: the path `text` between
/// double quotes, escaped. The result is what [`debug_quoted`] names.
#[verifier::external_body]
pub(crate) fn quote(text: &str) -> (r: String)
    ensures
        r@ == debug_quoted(text@),
{
    format!("{:?}", std::path::Path::new(text))
}

} // verus!
