use vstd::prelude::*;
use proc_macro2::TokenStream;
use crate::ast::{values_view, EnumDefView, MetricEnumDef, ValueDefView, Visibility};
use crate::ident::Ident;
use crate::syntax::{
    allow_attr, concat, fat_arrow, lifetime, name, path_sep, punct, push_allow, push_alone,
    push_fat_arrow, push_lifetime, push_name, push_path_sep, push_self_only, push_string,
    push_thin_arrow, self_only, string, thin_arrow,
};
use crate::tokens::{grouped, new_stream, push_group, stream_lexemes, Delim, Lexeme};
use crate::words::{push_word, word, Word};

verus! {

/// `pub` for what is public, nothing for what is private.
pub open spec fn visibility(v: Visibility) -> Seq<Lexeme> {
    match v {
        Visibility::Public => word(Word::Pub),
        Visibility::Inherited => Seq::empty(),
    }
}

/// The first `k` variants, one for each value.
pub open spec fn variants(values: Seq<ValueDefView>, k: int) -> Seq<Lexeme> {
    concat(k, |i: int| name(values[i].name) + punct(','))
}

/// `Enum::variant => "label string",`
pub open spec fn str_arm(enum_name: Seq<char>, value: ValueDefView) -> Seq<Lexeme> {
    name(enum_name) + path_sep() + name(value.name) + fat_arrow() + string(value.value) + punct(
        ',',
    )
}

/// The label strings of the first `k` variants.
pub open spec fn str_arms(enum_name: Seq<char>, values: Seq<ValueDefView>, k: int) -> Seq<
    Lexeme,
> {
    concat(k, |i: int| str_arm(enum_name, values[i]))
}

/// `#[derive(Clone, Copy, PartialEq)]`
pub open spec fn derives() -> Seq<Lexeme> {
    punct('#') + grouped(
        Delim::Bracket,
        word(Word::Derive) + grouped(
            Delim::Paren,
            word(Word::Clone) + punct(',') + word(Word::Copy) + punct(',') + word(
                Word::PartialEq,
            ),
        ),
    )
}

/// The declaration of the enum: one variant for each value.
pub open spec fn enum_decl(e: EnumDefView) -> Seq<Lexeme> {
    allow_attr(Word::DeadCode) + allow_attr(Word::NonCamelCaseTypes) + derives() + visibility(
        e.visibility,
    ) + word(Word::Enum) + name(e.name) + grouped(
        Delim::Brace,
        variants(e.values, e.values.len() as int),
    )
}

/// `get_str`: the label string of each variant, by a direct table.
pub open spec fn enum_get_str(e: EnumDefView) -> Seq<Lexeme> {
    word(Word::Impl) + name(e.name) + grouped(
        Delim::Brace,
        word(Word::Pub) + word(Word::Fn) + word(Word::GetStr) + self_only() + thin_arrow()
            + punct('&') + lifetime(Word::Static) + word(Word::Str) + grouped(
            Delim::Brace,
            word(Word::Match) + word(Word::SelfValue) + grouped(
                Delim::Brace,
                str_arms(e.name, e.values, e.values.len() as int),
            ),
        ),
    )
}

/// `::std::fmt::item`
pub open spec fn std_fmt(item: Word) -> Seq<Lexeme> {
    path_sep() + word(Word::Std) + path_sep() + word(Word::Fmt) + path_sep() + word(item)
}

/// The header of `fmt` and, in braces, its body.
pub open spec fn fmt_fn(body: Seq<Lexeme>) -> Seq<Lexeme> {
    word(Word::Fn) + word(Word::Fmt) + grouped(
        Delim::Paren,
        punct('&') + word(Word::SelfValue) + punct(',') + word(Word::F) + punct(':') + punct('&')
            + word(Word::Mut) + std_fmt(Word::Formatter),
    ) + thin_arrow() + std_fmt(Word::Result) + grouped(Delim::Brace, body)
}

/// `Debug` for the enum named `enum_name`: it writes the label string.
pub open spec fn enum_debug(enum_name: Seq<char>) -> Seq<Lexeme> {
    word(Word::Impl) + std_fmt(Word::Debug) + word(Word::For) + name(enum_name) + grouped(
        Delim::Brace,
        fmt_fn(
            word(Word::Write) + punct('!') + grouped(
                Delim::Paren,
                word(Word::F) + punct(',') + string("{}"@) + punct(',') + word(Word::SelfValue)
                    + punct('.') + word(Word::GetStr) + grouped(Delim::Paren, Seq::empty()),
            ),
        ),
    )
}

/// `Display` for the enum named `enum_name`: the same as `Debug`.
pub open spec fn enum_display(enum_name: Seq<char>) -> Seq<Lexeme> {
    word(Word::Impl) + std_fmt(Word::Display) + word(Word::For) + name(enum_name) + grouped(
        Delim::Brace,
        fmt_fn(
            std_fmt(Word::Debug) + path_sep() + word(Word::Fmt) + grouped(
                Delim::Paren,
                word(Word::SelfValue) + punct(',') + word(Word::F),
            ),
        ),
    )
}

/// What is generated for a `label_enum`: the enum with one variant for each
/// value, and the table from variant to label string.
#[verifier::opaque]
pub open spec fn label_enum(e: EnumDefView) -> Seq<Lexeme> {
    enum_decl(e) + enum_get_str(e) + enum_debug(e.name) + enum_display(e.name)
}

/// Appends `::std::fmt::item`.
fn push_std_fmt(ts: &mut TokenStream, item: Word)
    ensures
        stream_lexemes(*final(ts)) == stream_lexemes(*old(ts)) + std_fmt(item),
{
    push_path_sep(ts);
    push_word(ts, Word::Std);
    push_path_sep(ts);
    push_word(ts, Word::Fmt);
    push_path_sep(ts);
    push_word(ts, item);
}

/// Appends `fmt` with the given body.
fn push_fmt_fn(ts: &mut TokenStream, body: TokenStream)
    ensures
        stream_lexemes(*final(ts)) == stream_lexemes(*old(ts)) + fmt_fn(stream_lexemes(body)),
{
    let mut params = new_stream();
    push_alone(&mut params, '&');
    push_word(&mut params, Word::SelfValue);
    push_alone(&mut params, ',');
    push_word(&mut params, Word::F);
    push_alone(&mut params, ':');
    push_alone(&mut params, '&');
    push_word(&mut params, Word::Mut);
    push_std_fmt(&mut params, Word::Formatter);
    push_word(ts, Word::Fn);
    push_word(ts, Word::Fmt);
    push_group(ts, Delim::Paren, params);
    push_thin_arrow(ts);
    push_std_fmt(ts, Word::Result);
    push_group(ts, Delim::Brace, body);
}

/// Appends `#[derive(Clone, Copy, PartialEq)]`.
fn push_derives(ts: &mut TokenStream)
    ensures
        stream_lexemes(*final(ts)) == stream_lexemes(*old(ts)) + derives(),
{
    let mut list = new_stream();
    push_word(&mut list, Word::Clone);
    push_alone(&mut list, ',');
    push_word(&mut list, Word::Copy);
    push_alone(&mut list, ',');
    push_word(&mut list, Word::PartialEq);
    let mut attr = new_stream();
    push_word(&mut attr, Word::Derive);
    push_group(&mut attr, Delim::Paren, list);
    push_alone(ts, '#');
    push_group(ts, Delim::Bracket, attr);
}

/// Appends `pub` for what is public.
pub(crate) fn push_visibility(ts: &mut TokenStream, v: Visibility)
    ensures
        stream_lexemes(*final(ts)) == stream_lexemes(*old(ts)) + visibility(v),
{
    match v {
        Visibility::Public => push_word(ts, Word::Pub),
        Visibility::Inherited => {},
    }
}

/// Appends the declaration of the enum.
fn push_enum_decl(ts: &mut TokenStream, e: &MetricEnumDef)
    ensures
        stream_lexemes(*final(ts)) == stream_lexemes(*old(ts)) + enum_decl(e@),
{
    let mut body = new_stream();
    let mut i: usize = 0;
    while i < e.definitions.len()
        invariant
            i <= e.definitions.len(),
            stream_lexemes(body) == variants(values_view(e.definitions@), i as int),
        decreases e.definitions.len() - i,
    {
        push_name(&mut body, &e.definitions[i].name);
        push_alone(&mut body, ',');
        i += 1;
    }
    push_allow(ts, Word::DeadCode);
    push_allow(ts, Word::NonCamelCaseTypes);
    push_derives(ts);
    push_visibility(ts, e.visibility);
    push_word(ts, Word::Enum);
    push_name(ts, &e.enum_name);
    push_group(ts, Delim::Brace, body);
}

/// Appends the impl with `get_str`.
fn push_enum_get_str(ts: &mut TokenStream, e: &MetricEnumDef)
    ensures
        stream_lexemes(*final(ts)) == stream_lexemes(*old(ts)) + enum_get_str(e@),
{
    let mut arms = new_stream();
    let mut i: usize = 0;
    while i < e.definitions.len()
        invariant
            i <= e.definitions.len(),
            stream_lexemes(arms) == str_arms(
                e.enum_name@,
                values_view(e.definitions@),
                i as int,
            ),
        decreases e.definitions.len() - i,
    {
        push_name(&mut arms, &e.enum_name);
        push_path_sep(&mut arms);
        push_name(&mut arms, &e.definitions[i].name);
        push_fat_arrow(&mut arms);
        push_string(&mut arms, e.definitions[i].value.as_str());
        push_alone(&mut arms, ',');
        i += 1;
    }
    let mut body = new_stream();
    push_word(&mut body, Word::Match);
    push_word(&mut body, Word::SelfValue);
    push_group(&mut body, Delim::Brace, arms);
    let mut method = new_stream();
    push_word(&mut method, Word::Pub);
    push_word(&mut method, Word::Fn);
    push_word(&mut method, Word::GetStr);
    push_self_only(&mut method);
    push_thin_arrow(&mut method);
    push_alone(&mut method, '&');
    push_lifetime(&mut method, Word::Static);
    push_word(&mut method, Word::Str);
    push_group(&mut method, Delim::Brace, body);
    push_word(ts, Word::Impl);
    push_name(ts, &e.enum_name);
    push_group(ts, Delim::Brace, method);
}

/// Appends `Debug` for the enum.
fn push_enum_debug(ts: &mut TokenStream, enum_name: &Ident)
    ensures
        stream_lexemes(*final(ts)) == stream_lexemes(*old(ts)) + enum_debug(enum_name@),
{
    let mut args = new_stream();
    push_word(&mut args, Word::F);
    push_alone(&mut args, ',');
    push_string(&mut args, "{}");
    push_alone(&mut args, ',');
    push_word(&mut args, Word::SelfValue);
    push_alone(&mut args, '.');
    push_word(&mut args, Word::GetStr);
    push_group(&mut args, Delim::Paren, new_stream());
    let mut call = new_stream();
    push_word(&mut call, Word::Write);
    push_alone(&mut call, '!');
    push_group(&mut call, Delim::Paren, args);
    let mut body = new_stream();
    push_fmt_fn(&mut body, call);
    push_word(ts, Word::Impl);
    push_std_fmt(ts, Word::Debug);
    push_word(ts, Word::For);
    push_name(ts, enum_name);
    push_group(ts, Delim::Brace, body);
}

/// Appends `Display` for the enum.
fn push_enum_display(ts: &mut TokenStream, enum_name: &Ident)
    ensures
        stream_lexemes(*final(ts)) == stream_lexemes(*old(ts)) + enum_display(enum_name@),
{
    let mut args = new_stream();
    push_word(&mut args, Word::SelfValue);
    push_alone(&mut args, ',');
    push_word(&mut args, Word::F);
    let mut call = new_stream();
    push_std_fmt(&mut call, Word::Debug);
    push_path_sep(&mut call);
    push_word(&mut call, Word::Fmt);
    push_group(&mut call, Delim::Paren, args);
    let mut body = new_stream();
    push_fmt_fn(&mut body, call);
    push_word(ts, Word::Impl);
    push_std_fmt(ts, Word::Display);
    push_word(ts, Word::For);
    push_name(ts, enum_name);
    push_group(ts, Delim::Brace, body);
}

/// The emitter of what does not depend on how metrics are stored.
pub struct TokensBuilder;

impl TokensBuilder {
    /// The enum for a `label_enum` declaration, with its table of label
    /// strings.
    pub fn build_label_enum(enum_def: &MetricEnumDef) -> (r: TokenStream)
        ensures
            stream_lexemes(r) == label_enum(enum_def@),
    {
        proof {
            reveal(label_enum);
        }
        let mut out = new_stream();
        push_enum_decl(&mut out, enum_def);
        push_enum_get_str(&mut out, enum_def);
        push_enum_debug(&mut out, &enum_def.enum_name);
        push_enum_display(&mut out, &enum_def.enum_name);
        out
    }
}

} // verus!
