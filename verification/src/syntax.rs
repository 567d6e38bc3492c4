use vstd::prelude::*;
use proc_macro2::TokenStream;
use crate::ident::Ident;
use crate::tokens::{
    grouped, new_stream, push_group, push_ident, push_int, push_punct, push_str_lit,
    stream_lexemes, Delim, Lexeme, Spacing,
};
use crate::words::{push_word, word, Word};

verus! {

/// The identifier `n`.
pub open spec fn name(n: Seq<char>) -> Seq<Lexeme> {
    seq![Lexeme::Ident(n)]
}

/// The punctuation character `c`, standing alone.
pub open spec fn punct(c: char) -> Seq<Lexeme> {
    seq![Lexeme::Punct(c, Spacing::Alone)]
}

/// The punctuation character `c`, glued to what follows.
pub open spec fn joint(c: char) -> Seq<Lexeme> {
    seq![Lexeme::Punct(c, Spacing::Joint)]
}

/// The string literal with value `s`.
pub open spec fn string(s: Seq<char>) -> Seq<Lexeme> {
    seq![Lexeme::Str(s)]
}

/// The integer literal `n`.
pub open spec fn number(n: usize) -> Seq<Lexeme> {
    seq![Lexeme::Int(n)]
}

/// `::`
pub open spec fn path_sep() -> Seq<Lexeme> {
    joint(':') + punct(':')
}

/// `=>`
pub open spec fn fat_arrow() -> Seq<Lexeme> {
    joint('=') + punct('>')
}

/// `->`
pub open spec fn thin_arrow() -> Seq<Lexeme> {
    joint('-') + punct('>')
}

/// The lifetime named by the word `w`.
pub open spec fn lifetime(w: Word) -> Seq<Lexeme> {
    joint('\'') + word(w)
}

/// The attribute `#[allow(lint)]`.
pub open spec fn allow_attr(lint: Word) -> Seq<Lexeme> {
    punct('#') + grouped(Delim::Bracket, word(Word::Allow) + grouped(Delim::Paren, word(lint)))
}

/// The type `&'static LocalKey<inner>`.
pub open spec fn local_key(inner: Seq<char>) -> Seq<Lexeme> {
    punct('&') + lifetime(Word::Static) + word(Word::LocalKey) + punct('<') + name(inner) + punct(
        '>',
    )
}

/// The receiver `&self` in parentheses: the parameters of a method that
/// takes nothing else.
pub open spec fn self_only() -> Seq<Lexeme> {
    grouped(Delim::Paren, punct('&') + word(Word::SelfValue))
}

/// `()`
pub open spec fn unit() -> Seq<Lexeme> {
    grouped(Delim::Paren, Seq::empty())
}

/// The first `n` of the pieces `f(0)`, `f(1)`, ... one after the other.
pub open spec fn concat(n: int, f: spec_fn(int) -> Seq<Lexeme>) -> Seq<Lexeme>
    decreases n,
{
    if n <= 0 {
        Seq::empty()
    } else {
        concat(n - 1, f) + f(n - 1)
    }
}

/// Where every piece has the length `len`, piece `i` lies at `i * len` in
/// the whole.
pub proof fn lemma_concat_piece(n: int, f: spec_fn(int) -> Seq<Lexeme>, len: int, i: int)
    requires
        0 <= i < n,
        forall|j: int| 0 <= j < n ==> (#[trigger] f(j)).len() == len,
    ensures
        concat(n, f).len() == n * len,
        concat(n, f).subrange(i * len, i * len + len) == f(i),
    decreases n,
{
    let whole = concat(n, f);
    let front = concat(n - 1, f);
    assert(f(n - 1).len() == len);
    assert(f(i).len() == len);
    if n == 1 {
        assert(front.len() == 0);
        assert(whole =~= f(0));
        assert(whole.subrange(0, len) =~= f(0));
        assert(n * len == len && i * len == 0) by (nonlinear_arith)
            requires
                n == 1,
                i == 0,
        ;
    } else if i < n - 1 {
        lemma_concat_piece(n - 1, f, len, i);
        assert((n - 1) * len + len == n * len) by (nonlinear_arith);
        assert(i * len + len <= (n - 1) * len) by (nonlinear_arith)
            requires
                0 <= i < n - 1,
                len >= 0,
        ;
        assert(0 <= i * len) by (nonlinear_arith)
            requires
                0 <= i,
                len >= 0,
        ;
        assert(whole.subrange(i * len, i * len + len) =~= front.subrange(i * len, i * len + len));
    } else {
        lemma_concat_piece(n - 1, f, len, 0);
        assert((n - 1) * len + len == n * len) by (nonlinear_arith);
        assert(whole.subrange(i * len, i * len + len) =~= f(i));
    }
}

/// Appends the identifier `id`.
pub(crate) fn push_name(ts: &mut TokenStream, id: &Ident)
    ensures
        stream_lexemes(*final(ts)) == stream_lexemes(*old(ts)) + name(id@),
{
    push_ident(ts, id.as_str());
}

/// Appends the punctuation character `c`, standing alone.
pub(crate) fn push_alone(ts: &mut TokenStream, c: char)
    requires
        crate::tokens::is_punct(c),
    ensures
        stream_lexemes(*final(ts)) == stream_lexemes(*old(ts)) + punct(c),
{
    push_punct(ts, c, Spacing::Alone);
}

/// Appends the punctuation character `c`, glued to what follows.
pub(crate) fn push_joint(ts: &mut TokenStream, c: char)
    requires
        crate::tokens::is_punct(c),
    ensures
        stream_lexemes(*final(ts)) == stream_lexemes(*old(ts)) + joint(c),
{
    push_punct(ts, c, Spacing::Joint);
}

/// Appends the string literal with value `s`.
pub(crate) fn push_string(ts: &mut TokenStream, s: &str)
    ensures
        stream_lexemes(*final(ts)) == stream_lexemes(*old(ts)) + string(s@),
{
    push_str_lit(ts, s);
}

/// Appends the integer literal `n`.
pub(crate) fn push_number(ts: &mut TokenStream, n: usize)
    ensures
        stream_lexemes(*final(ts)) == stream_lexemes(*old(ts)) + number(n),
{
    push_int(ts, n);
}

/// Appends `::`.
pub(crate) fn push_path_sep(ts: &mut TokenStream)
    ensures
        stream_lexemes(*final(ts)) == stream_lexemes(*old(ts)) + path_sep(),
{
    push_joint(ts, ':');
    push_alone(ts, ':');
}

/// Appends `=>`.
pub(crate) fn push_fat_arrow(ts: &mut TokenStream)
    ensures
        stream_lexemes(*final(ts)) == stream_lexemes(*old(ts)) + fat_arrow(),
{
    push_joint(ts, '=');
    push_alone(ts, '>');
}

/// Appends `->`.
pub(crate) fn push_thin_arrow(ts: &mut TokenStream)
    ensures
        stream_lexemes(*final(ts)) == stream_lexemes(*old(ts)) + thin_arrow(),
{
    push_joint(ts, '-');
    push_alone(ts, '>');
}

/// Appends the lifetime named by the word `w`.
pub(crate) fn push_lifetime(ts: &mut TokenStream, w: Word)
    ensures
        stream_lexemes(*final(ts)) == stream_lexemes(*old(ts)) + lifetime(w),
{
    push_joint(ts, '\'');
    push_word(ts, w);
}

/// Appends the attribute `#[allow(lint)]`.
pub(crate) fn push_allow(ts: &mut TokenStream, lint: Word)
    ensures
        stream_lexemes(*final(ts)) == stream_lexemes(*old(ts)) + allow_attr(lint),
{
    let mut inner = new_stream();
    push_word(&mut inner, lint);
    let mut attr = new_stream();
    push_word(&mut attr, Word::Allow);
    push_group(&mut attr, Delim::Paren, inner);
    push_alone(ts, '#');
    push_group(ts, Delim::Bracket, attr);
}

/// Appends the type `&'static LocalKey<inner>`.
pub(crate) fn push_local_key(ts: &mut TokenStream, inner: &Ident)
    ensures
        stream_lexemes(*final(ts)) == stream_lexemes(*old(ts)) + local_key(inner@),
{
    push_alone(ts, '&');
    push_lifetime(ts, Word::Static);
    push_word(ts, Word::LocalKey);
    push_alone(ts, '<');
    push_name(ts, inner);
    push_alone(ts, '>');
}

/// Appends `()`.
pub(crate) fn push_unit(ts: &mut TokenStream)
    ensures
        stream_lexemes(*final(ts)) == stream_lexemes(*old(ts)) + unit(),
{
    let inner = new_stream();
    push_group(ts, Delim::Paren, inner);
}

/// Appends `(&self)`.
pub(crate) fn push_self_only(ts: &mut TokenStream)
    ensures
        stream_lexemes(*final(ts)) == stream_lexemes(*old(ts)) + self_only(),
{
    let mut inner = new_stream();
    push_alone(&mut inner, '&');
    push_word(&mut inner, Word::SelfValue);
    push_group(ts, Delim::Paren, inner);
}

} // verus!
