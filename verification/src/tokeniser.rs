use vstd::prelude::*;

use crate::text::strings_view;
use crate::pattern::{find_all, regex_builds, regex_find_all, regex_replace_all, replace_all};

verus! {

/// The pattern of a line comment: two slashes and the rest of the line.
pub const COMMENT_PATTERN: &'static str = "//.*";

/// The pattern of a token: a run of letters and digits, or one punctuation
/// character.
pub const TOKEN_PATTERN: &'static str = "[[:alnum:]]+|[[:punct:]]";

/// A lexical pattern that could not be built.
#[derive(PartialEq, Eq, Debug)]
pub struct PatternError {
    /// The pattern that was refused.
    pub pattern: String,
}

impl View for PatternError {
    type V = Seq<char>;

    /// The text of the pattern that was refused.
    open spec fn view(&self) -> Seq<char> {
        self.pattern@
    }
}

/// What is made of the outcome of building and applying `pattern`: the
/// outcome itself where the pattern was built, the error that names the
/// pattern where it was not.
pub fn built<T>(outcome: Result<T, regex::Error>, pattern: &str) -> (r: Result<T, PatternError>)
    ensures
        match outcome {
            Ok(value) => r == Ok::<T, PatternError>(value),
            Err(_) => r matches Err(e) && e@ == pattern@,
        },
{
    match outcome {
        Ok(value) => Ok(value),
        Err(_) => Err(PatternError { pattern: pattern.to_owned() }),
    }
}

/// The value of a text or of the error in its place.
pub open spec fn text_result_view(r: Result<String, PatternError>) -> Result<Seq<char>, Seq<char>> {
    match r {
        Ok(text) => Ok(text@),
        Err(e) => Err(e@),
    }
}

/// The value of a list of tokens or of the error in its place.
pub open spec fn tokens_result_view(r: Result<Vec<String>, PatternError>) -> Result<
    Seq<Seq<char>>,
    Seq<char>,
> {
    match r {
        Ok(tokens) => Ok(strings_view(tokens@)),
        Err(e) => Err(e@),
    }
}

/// A schema text without its line comments.
pub open spec fn stripped(text: Seq<char>) -> Seq<char> {
    regex_replace_all(COMMENT_PATTERN@, false, text, Seq::empty())
}

/// The tokens of a schema text.
pub open spec fn tokenized(text: Seq<char>) -> Seq<Seq<char>> {
    regex_find_all(TOKEN_PATTERN@, stripped(text))
}

/// What removing the comments of a text comes to: the text without them
/// where the comment pattern is built, the pattern as error where it is not.
pub open spec fn stripping(text: Seq<char>) -> Result<Seq<char>, Seq<char>> {
    if regex_builds(COMMENT_PATTERN@, false) {
        Ok(stripped(text))
    } else {
        Err(COMMENT_PATTERN@)
    }
}

/// What collecting the tokens of a text without comments comes to: the
/// tokens where the token pattern is built, the pattern as error where it is
/// not.
pub open spec fn extracting(text: Seq<char>) -> Result<Seq<Seq<char>>, Seq<char>> {
    if regex_builds(TOKEN_PATTERN@, false) {
        Ok(regex_find_all(TOKEN_PATTERN@, text))
    } else {
        Err(TOKEN_PATTERN@)
    }
}

/// What splitting a schema text into tokens comes to: its tokens where both
/// lexical patterns are built, else the first pattern that is not, the
/// comment pattern before the token pattern.
pub open spec fn tokenizing(text: Seq<char>) -> Result<Seq<Seq<char>>, Seq<char>> {
    match stripping(text) {
        Ok(clean) => extracting(clean),
        Err(pattern) => Err(pattern),
    }
}

/// Removes the line comments from a schema text. Fails only where the
/// comment pattern cannot be built.
pub fn strip_comments(raw_str: &str) -> (r: Result<String, PatternError>)
    ensures
        text_result_view(r) == stripping(raw_str@),
{
    proof {
        reveal_strlit("");
        assert(""@ =~= Seq::<char>::empty());
    }
    built(replace_all(COMMENT_PATTERN, false, raw_str, ""), COMMENT_PATTERN)
}

/// Collects the tokens of a text that holds no comments: every run of
/// letters and digits and every punctuation character, in their order. Fails
/// only where the token pattern cannot be built.
pub fn extract_tokens(raw_str: &str) -> (r: Result<Vec<String>, PatternError>)
    ensures
        tokens_result_view(r) == extracting(raw_str@),
{
    built(find_all(TOKEN_PATTERN, raw_str), TOKEN_PATTERN)
}

/// Splits a schema text into its tokens, line comments left out.
///
/// Both steps need a lexical pattern; where one cannot be built, the error
/// names it, and nothing else makes the call fail.
pub fn translate(input: &str) -> (r: Result<Vec<String>, PatternError>)
    ensures
        tokens_result_view(r) == tokenizing(input@),
{
    match strip_comments(input) {
        Ok(text) => extract_tokens(text.as_str()),
        Err(e) => Err(e),
    }
}

/// The tokens of a text follow from what is left of it without its comments:
/// splitting two texts that are the same once their comments are removed
/// comes to the same, the tokens or the error.
pub proof fn law_tokens_follow_stripped_text(first: Seq<char>, second: Seq<char>)
    requires
        stripped(first) == stripped(second),
    ensures
        tokenizing(first) == tokenizing(second),
{
}

} // verus!
