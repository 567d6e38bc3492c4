use vstd::prelude::*;
use proc_macro2::{TokenStream, TokenTree};
use quote::TokenStreamExt;
use crate::ident::is_ident;

verus! {

/// `proc_macro2::TokenStream`: a sequence of token trees. What one holds is
/// known through [`stream_lexemes`] only.
#[verifier::external_type_specification]
#[verifier::external_body]
pub struct ExTokenStream(TokenStream);

/// `proc_macro2::TokenTree`: one token, or a group of tokens in brackets.
/// What one holds is known through [`tree_lexemes`] only.
#[verifier::external_type_specification]
#[verifier::external_body]
pub struct ExTokenTree(TokenTree);

/// The kind of bracket that encloses a group of tokens.
#[derive(Clone, Copy, PartialEq, Eq, Structural, Debug)]
pub enum Delim {
    Paren,
    Brace,
    Bracket,
}

/// Whether a punctuation character is glued to the one that follows it.
#[derive(Clone, Copy, PartialEq, Eq, Structural, Debug)]
pub enum Spacing {
    Alone,
    Joint,
}

/// One lexical element of generated code. A group of tokens appears as its
/// opening bracket, its contents and its closing bracket.
pub enum Lexeme {
    /// An identifier or keyword.
    Ident(Seq<char>),
    /// A punctuation character.
    Punct(char, Spacing),
    /// A string literal with the given value.
    Str(Seq<char>),
    /// An integer literal without a suffix.
    Int(usize),
    /// The bracket that opens a group.
    Open(Delim),
    /// The bracket that closes a group.
    Close(Delim),
}

/// The characters that may stand as punctuation in a token stream.
pub open spec fn is_punct(c: char) -> bool {
    c == '!' || c == '#' || c == '$' || c == '%' || c == '&' || c == '\'' || c == '*' || c == '+'
        || c == ',' || c == '-' || c == '.' || c == '/' || c == ':' || c == ';' || c == '<'
        || c == '=' || c == '>' || c == '?' || c == '@' || c == '^' || c == '|' || c == '~'
}

/// The lexemes that a token stream holds, in order.
pub uninterp spec fn stream_lexemes(ts: TokenStream) -> Seq<Lexeme>;

/// The lexemes that one token tree holds: one for a leaf, and for a group
/// its brackets around what it encloses.
pub uninterp spec fn tree_lexemes(t: TokenTree) -> Seq<Lexeme>;

/// The lexemes `inner` enclosed in brackets of kind `d`.
pub open spec fn grouped(d: Delim, inner: Seq<Lexeme>) -> Seq<Lexeme> {
    seq![Lexeme::Open(d)] + inner + seq![Lexeme::Close(d)]
}

/// `TokenStream::new`: a stream that holds no token.
#[verifier::external_body]
pub(crate) fn new_stream() -> (r: TokenStream)
    ensures
        stream_lexemes(r) == Seq::<Lexeme>::empty(),
{
    TokenStream::new()
}

/// `Ident::new` at the call site's span: the identifier token spelled
/// `name`. The outside function panics unless `name` is an identifier.
#[verifier::external_body]
pub(crate) fn ident_token(name: &str) -> (r: TokenTree)
    requires
        is_ident(name@),
    ensures
        tree_lexemes(r) == seq![Lexeme::Ident(name@)],
{
    TokenTree::Ident(proc_macro2::Ident::new(name, proc_macro2::Span::call_site()))
}

/// `Punct::new`: the punctuation token `ch`. The outside function panics on
/// a character that is no punctuation.
#[verifier::external_body]
pub(crate) fn punct_token(ch: char, spacing: Spacing) -> (r: TokenTree)
    requires
        is_punct(ch),
    ensures
        tree_lexemes(r) == seq![Lexeme::Punct(ch, spacing)],
{
    TokenTree::Punct(proc_macro2::Punct::new(ch, match spacing {
        Spacing::Alone => proc_macro2::Spacing::Alone,
        Spacing::Joint => proc_macro2::Spacing::Joint,
    }))
}

/// `Literal::string`: the string literal whose value is `value`.
#[verifier::external_body]
pub(crate) fn string_token(value: &str) -> (r: TokenTree)
    ensures
        tree_lexemes(r) == seq![Lexeme::Str(value@)],
{
    TokenTree::Literal(proc_macro2::Literal::string(value))
}

/// `Literal::usize_unsuffixed`: the integer literal `n`, without a suffix.
#[verifier::external_body]
pub(crate) fn int_token(n: usize) -> (r: TokenTree)
    ensures
        tree_lexemes(r) == seq![Lexeme::Int(n)],
{
    TokenTree::Literal(proc_macro2::Literal::usize_unsuffixed(n))
}

/// `Group::new`: the tokens of `inner` enclosed in brackets of kind `d`.
#[verifier::external_body]
pub(crate) fn group_token(d: Delim, inner: TokenStream) -> (r: TokenTree)
    ensures
        tree_lexemes(r) == grouped(d, stream_lexemes(inner)),
{
    TokenTree::Group(proc_macro2::Group::new(match d {
        Delim::Paren => proc_macro2::Delimiter::Parenthesis,
        Delim::Brace => proc_macro2::Delimiter::Brace,
        Delim::Bracket => proc_macro2::Delimiter::Bracket,
    }, inner))
}

/// `TokenStreamExt::append`: puts one token tree at the end of the stream.
#[verifier::external_body]
pub(crate) fn append_token(ts: &mut TokenStream, t: TokenTree)
    ensures
        stream_lexemes(*final(ts)) == stream_lexemes(*old(ts)) + tree_lexemes(t),
{
    ts.append(t)
}

/// `TokenStreamExt::append_all`: puts the token trees of `other`, in their
/// order, at the end of the stream.
#[verifier::external_body]
pub(crate) fn append_all(ts: &mut TokenStream, other: TokenStream)
    ensures
        stream_lexemes(*final(ts)) == stream_lexemes(*old(ts)) + stream_lexemes(other),
{
    ts.append_all(other)
}

/// Appends the identifier `name`.
pub(crate) fn push_ident(ts: &mut TokenStream, name: &str)
    requires
        is_ident(name@),
    ensures
        stream_lexemes(*final(ts)) == stream_lexemes(*old(ts)).push(Lexeme::Ident(name@)),
{
    let t = ident_token(name);
    append_token(ts, t);
}

/// Appends the punctuation character `ch`.
pub(crate) fn push_punct(ts: &mut TokenStream, ch: char, spacing: Spacing)
    requires
        is_punct(ch),
    ensures
        stream_lexemes(*final(ts)) == stream_lexemes(*old(ts)).push(Lexeme::Punct(ch, spacing)),
{
    let t = punct_token(ch, spacing);
    append_token(ts, t);
}

/// Appends the string literal whose value is `value`.
pub(crate) fn push_str_lit(ts: &mut TokenStream, value: &str)
    ensures
        stream_lexemes(*final(ts)) == stream_lexemes(*old(ts)).push(Lexeme::Str(value@)),
{
    let t = string_token(value);
    append_token(ts, t);
}

/// Appends the integer literal `n`.
pub(crate) fn push_int(ts: &mut TokenStream, n: usize)
    ensures
        stream_lexemes(*final(ts)) == stream_lexemes(*old(ts)).push(Lexeme::Int(n)),
{
    let t = int_token(n);
    append_token(ts, t);
}

/// Appends the tokens of `inner` as one group in brackets of kind `d`.
pub(crate) fn push_group(ts: &mut TokenStream, d: Delim, inner: TokenStream)
    ensures
        stream_lexemes(*final(ts)) == stream_lexemes(*old(ts)) + grouped(d, stream_lexemes(inner)),
{
    let t = group_token(d, inner);
    append_token(ts, t);
}

} // verus!
