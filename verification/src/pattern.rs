use vstd::prelude::*;

use crate::text::strings_view;

verus! {

/// The error with which the `regex` crate refuses a pattern.
#[verifier::external_type_specification]
#[verifier::external_body]
pub struct ExRegexError(regex::Error);

/// Whether `regex::RegexBuilder::build` builds an expression from `pattern`,
/// with the multi-line flag set to `multi_line` and every other setting as
/// the builder starts with. `regex::Regex::new` is that builder with the flag
/// not set.
pub uninterp spec fn regex_builds(pattern: Seq<char>, multi_line: bool) -> bool;

/// The text that `regex::Regex::replace_all` makes of `haystack` when every
/// match of `pattern` is replaced by `rep`, for the expression that
/// `regex::RegexBuilder` builds from `pattern` with the multi-line flag set
/// to `multi_line`.
pub uninterp spec fn regex_replace_all(
    pattern: Seq<char>,
    multi_line: bool,
    haystack: Seq<char>,
    rep: Seq<char>,
) -> Seq<char>;

/// The texts of the matches that `regex::Regex::find_iter` yields on
/// `haystack`, in their order, for the expression that `regex::Regex::new`
/// builds from `pattern`.
pub uninterp spec fn regex_find_all(pattern: Seq<char>, haystack: Seq<char>) -> Seq<Seq<char>>;

/// Builds `pattern` with `regex::RegexBuilder::build`, in multi-line mode
/// where `multi_line` holds, and calls `regex::Regex::replace_all` on
/// `haystack` with the replacement `rep`.
///
/// Believed, not proved: the call succeeds where [`regex_builds`] says that
/// the pattern is built, and nowhere else; the text that then comes back is
/// the one that [`regex_replace_all`] names.
#[verifier::external_body]
pub(crate) fn replace_all(pattern: &str, multi_line: bool, haystack: &str, rep: &str) -> (r: Result<
    String,
    regex::Error,
>)
    ensures
        r is Ok <==> regex_builds(pattern@, multi_line),
        r matches Ok(text) ==> text@ == regex_replace_all(pattern@, multi_line, haystack@, rep@),
{
    let re = regex::RegexBuilder::new(pattern).multi_line(multi_line).build()?;
    Ok(re.replace_all(haystack, rep).into_owned())
}

/// Builds `pattern` with `regex::Regex::new` and collects the texts of the
/// matches that `regex::Regex::find_iter` yields on `haystack`.
///
/// Believed, not proved: the call succeeds where [`regex_builds`] says that
/// the pattern is built without the multi-line flag, and nowhere else; the
/// texts that then come back are those that [`regex_find_all`] names.
#[verifier::external_body]
pub(crate) fn find_all(pattern: &str, haystack: &str) -> (r: Result<Vec<String>, regex::Error>)
    ensures
        r is Ok <==> regex_builds(pattern@, false),
        r matches Ok(found) ==> strings_view(found@) == regex_find_all(pattern@, haystack@),
{
    let re = regex::Regex::new(pattern)?;
    Ok(re.find_iter(haystack).map(|m| m.as_str().to_string()).collect())
}

} // verus!
