use vstd::prelude::*;
use proc_macro2::TokenStream;
use crate::auto_flush_builder::{
    build_error, generated, metrics_before, AutoFlushTokensBuilder, ScopeCounter,
};
use crate::errors::{message_of, BuildError, BuildErrorView};
use crate::lexer::{parse_message_of, ParseError, ParseErrorView};
use crate::parser::{parse, parse_text};
use crate::tokens::stream_lexemes;

verus! {

/// Why an input was not expanded: it is malformed, or what it declares
/// cannot be generated.
#[derive(Debug, PartialEq, Eq)]
pub enum ExpandError {
    Parse(ParseError),
    Build(BuildError),
}

/// What an [`ExpandError`] stands for.
pub enum ExpandErrorView {
    Parse(ParseErrorView),
    Build(BuildErrorView),
}

impl View for ExpandError {
    type V = ExpandErrorView;

    open spec fn view(&self) -> ExpandErrorView {
        match self {
            ExpandError::Parse(e) => ExpandErrorView::Parse(e@),
            ExpandError::Build(e) => ExpandErrorView::Build(e@),
        }
    }
}

impl ExpandError {
    /// The diagnostic for this error.
    pub fn message(&self) -> (r: String)
        ensures
            r@ == match self@ {
                ExpandErrorView::Parse(e) => parse_message_of(e),
                ExpandErrorView::Build(e) => message_of(e),
            },
    {
        match self {
            ExpandError::Parse(e) => e.message(),
            ExpandError::Build(e) => e.message(),
        }
    }
}

/// Why the text `s` is not expanded, if it is not, where the next metric
/// would get the number `scope`. The stages follow each other, and the
/// first failure ends the run.
pub open spec fn expand_error(s: Seq<char>, scope: nat) -> Option<ExpandErrorView> {
    match parse_text(s) {
        Err(e) => Some(ExpandErrorView::Parse(e)),
        Ok(items) => match build_error(items, scope) {
            Some(e) => Some(ExpandErrorView::Build(e)),
            None => None,
        },
    }
}

/// Expands the declarations that `input` holds: parses them, checks them,
/// and generates the code for them. On an error nothing is generated and
/// the counter stays as it was.
pub fn make_auto_flush_static_metric(input: &str, counter: &mut ScopeCounter) -> (r: Result<
    TokenStream,
    ExpandError,
>)
    ensures
        match expand_error(input@, old(counter).next as nat) {
            Some(e) => r matches Err(err) && err@ == e && *final(counter) == *old(counter),
            None => r matches Ok(tokens) && parse_text(input@) matches Ok(items) && stream_lexemes(
                tokens,
            ) == generated(items, old(counter).next as nat, items.len() as int)
                && final(counter).next == old(counter).next + metrics_before(
                items,
                items.len() as int,
            ),
        },
{
    let body = match parse(input) {
        Err(e) => {
            return Err(ExpandError::Parse(e));
        },
        Ok(body) => body,
    };
    match AutoFlushTokensBuilder::build(body, counter) {
        Err(e) => Err(ExpandError::Build(e)),
        Ok(tokens) => Ok(tokens),
    }
}

} // verus!
