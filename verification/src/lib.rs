use vstd::prelude::*;

pub mod lexer;
pub mod naming;
pub mod parser;
pub mod pattern;
pub mod text;
pub mod tokeniser;

use crate::lexer::declarations;
use crate::lexer::identifier::{BlockView, GrammarError};
use crate::parser::{blocks_config, fresh, rendering, translated, LINE_START_PATTERN};
use crate::pattern::regex_builds;
use crate::tokeniser::{tokenized, tokenizing, PatternError, COMMENT_PATTERN, TOKEN_PATTERN};

verus! {

/// Why a schema text was not translated.
#[derive(PartialEq, Eq, Debug)]
pub enum TranslateError {
    /// A lexical pattern could not be built.
    Pattern(PatternError),
    /// The tokens of the schema do not follow the grammar.
    Grammar(GrammarError),
}

/// The mathematical value of a [`TranslateError`].
pub enum TranslateErrorView {
    /// The lexical pattern that could not be built.
    Pattern(Seq<char>),
    /// The grammar error of the first malformed group.
    Grammar(GrammarError),
}

impl View for TranslateError {
    type V = TranslateErrorView;

    open spec fn view(&self) -> TranslateErrorView {
        match self {
            TranslateError::Pattern(e) => TranslateErrorView::Pattern(e@),
            TranslateError::Grammar(e) => TranslateErrorView::Grammar(*e),
        }
    }
}

/// The value of a source text or of the error in its place.
pub open spec fn translate_result_view(r: Result<String, TranslateError>) -> Result<
    Seq<char>,
    TranslateErrorView,
> {
    match r {
        Ok(source) => Ok(source@),
        Err(e) => Err(e@),
    }
}

/// What translating a schema text comes to, step by step: its tokens, or the
/// lexical pattern that is not built; their declarations, or the grammar
/// error of the first malformed group; the source that the declarations are
/// rendered to, or the line-start pattern where a module is to be written
/// and that pattern is not built.
pub open spec fn translating(text: Seq<char>) -> Result<Seq<char>, TranslateErrorView> {
    match tokenizing(text) {
        Err(pattern) => Err(TranslateErrorView::Pattern(pattern)),
        Ok(tokens) => match declarations(tokens) {
            Err(e) => Err(TranslateErrorView::Grammar(e)),
            Ok(blocks) => match rendering(blocks) {
                Ok(source) => Ok(source),
                Err(pattern) => Err(TranslateErrorView::Pattern(pattern)),
            },
        },
    }
}

/// Translates a schema text to source text: tokens, grouping tree,
/// declarations, rendering.
///
/// A schema whose tokens do not follow the grammar gives the grammar error of
/// its first malformed group, and no output. A pattern error comes where a
/// lexical pattern that the text needs cannot be built, and nowhere else.
pub fn translate(schema_text: &str) -> (r: Result<String, TranslateError>)
    ensures
        translate_result_view(r) == translating(schema_text@),
{
    let tokens = match crate::tokeniser::translate(schema_text) {
        Ok(tokens) => tokens,
        Err(e) => {
            return Err(TranslateError::Pattern(e));
        },
    };
    let blocks = match crate::lexer::translate(&tokens) {
        Ok(blocks) => blocks,
        Err(e) => {
            return Err(TranslateError::Grammar(e));
        },
    };
    match crate::parser::translate(blocks) {
        Ok(source) => Ok(source),
        Err(e) => Err(TranslateError::Pattern(e)),
    }
}

/// When translating succeeds: where both lexical patterns are built, the
/// tokens follow the grammar, and the declarations hold no package directive
/// or the line-start pattern is built. The source is then the one that the
/// declarations of the tokens are translated to.
pub proof fn law_translate_succeeds(text: Seq<char>)
    ensures
        translating(text) is Ok <==> {
            &&& regex_builds(COMMENT_PATTERN@, false)
            &&& regex_builds(TOKEN_PATTERN@, false)
            &&& (declarations(tokenized(text)) matches Ok(blocks) && (blocks_config(
                blocks,
                fresh().config,
            ).package is None || regex_builds(LINE_START_PATTERN@, true)))
        },
        translating(text) is Ok ==> (declarations(tokenized(text)) matches Ok(blocks)
            && translating(text) == Ok::<Seq<char>, TranslateErrorView>(translated(blocks))),
        translating(text) matches Err(TranslateErrorView::Grammar(e)) ==> declarations(
            tokenized(text),
        ) == Err::<Seq<BlockView>, GrammarError>(e),
{
}

/// Translating is a function of the schema text: two runs on the same text
/// end alike, with the same source or with the same error.
pub proof fn law_translate_deterministic(
    text: Seq<char>,
    first: Result<String, TranslateError>,
    second: Result<String, TranslateError>,
)
    requires
        translate_result_view(first) == translating(text),
        translate_result_view(second) == translating(text),
    ensures
        first is Ok <==> second is Ok,
        translate_result_view(first) == translate_result_view(second),
{
}

} // verus!
