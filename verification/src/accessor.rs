use vstd::prelude::*;
use proc_macro2::TokenStream;
use crate::ast::{
    lookup_enum, values_view, EnumDefView, LabelArmView, MetricDefView, MetricValueDef,
    ValueDefView,
};
use crate::inner::{field_decl, field_decls};
use crate::plan::plan_of;
use crate::ident::Ident;
use crate::syntax::{
    concat, fat_arrow, lemma_concat_piece, name, path_sep, punct, push_alone, push_fat_arrow,
    push_name, push_path_sep, push_thin_arrow, thin_arrow,
};
use crate::tokens::{grouped, new_stream, push_group, stream_lexemes, Delim, Lexeme};
use crate::words::{push_word, word, Word};

verus! {

/// `Enum::variant => &self.field,`
pub open spec fn get_arm(enum_name: Seq<char>, variant: Seq<char>, field: Seq<char>) -> Seq<
    Lexeme,
> {
    name(enum_name) + path_sep() + name(variant) + fat_arrow() + punct('&') + word(
        Word::SelfValue,
    ) + punct('.') + name(field) + punct(',')
}

/// One arm for each of the first `k` values: the variant of a value leads
/// to the field of the same name.
pub open spec fn get_arms(enum_name: Seq<char>, values: Seq<ValueDefView>, k: int) -> Seq<Lexeme> {
    concat(k, |i: int| get_arm(enum_name, values[i].name, values[i].name))
}

/// The accessor by enum value: `get` maps each variant of the enum to the
/// field that stands for it, by a direct table.
pub open spec fn get_accessor(enum_name: Seq<char>, member: Seq<char>, values: Seq<ValueDefView>)
    -> Seq<Lexeme> {
    word(Word::Pub) + word(Word::Fn) + word(Word::Get) + grouped(
        Delim::Paren,
        punct('&') + word(Word::SelfValue) + punct(',') + word(Word::EnumValue) + punct(':')
            + name(enum_name),
    ) + thin_arrow() + punct('&') + name(member) + grouped(
        Delim::Brace,
        word(Word::Match) + word(Word::EnumValue) + grouped(
            Delim::Brace,
            get_arms(enum_name, values, values.len() as int),
        ),
    )
}

/// The accessor by enum value where the label is declared by an enum,
/// nothing where its values are written in place.
pub open spec fn optional_get_accessor(
    enum_name: Option<Seq<char>>,
    member: Seq<char>,
    values: Seq<ValueDefView>,
) -> Seq<Lexeme> {
    match enum_name {
        Some(e) => get_accessor(e, member, values),
        None => Seq::empty(),
    }
}

/// `field,`
pub open spec fn field_init(field: Seq<char>) -> Seq<Lexeme> {
    name(field) + punct(',')
}

/// The first `k` fields, each initialised from the variable of its name.
pub open spec fn field_inits(values: Seq<ValueDefView>, k: int) -> Seq<Lexeme> {
    concat(k, |i: int| field_init(values[i].name))
}

/// An enum-keyed `get` is direct field access by the variant's field name:
/// for every variant, the arm of the table for it leads to the field that
/// is named like the variant, and the type that carries the table declares
/// a field of that name, at the variant's place.
pub proof fn lemma_get_is_field_access(
    enum_name: Seq<char>,
    member: Seq<char>,
    values: Seq<ValueDefView>,
    i: int,
)
    requires
        0 <= i < values.len(),
    ensures
        get_arms(enum_name, values, values.len() as int).subrange(11 * i, 11 * i + 11) == get_arm(
            enum_name,
            values[i].name,
            values[i].name,
        ),
        field_decls(values, member, values.len() as int).subrange(5 * i, 5 * i + 5) == field_decl(
            values[i].name,
            member,
        ),
{
    lemma_concat_piece(
        values.len() as int,
        |i: int| get_arm(enum_name, values[i].name, values[i].name),
        11,
        i,
    );
    lemma_concat_piece(values.len() as int, |i: int| field_decl(values[i].name, member), 5, i);
}

/// The fields of a label that is declared by an enum are the variants of
/// that enum: a label that names a declared `label_enum` is planned with
/// the enum's name and with the enum's values, in their order.
pub proof fn lemma_enum_label_fields(
    metric: MetricDefView,
    enums: Seq<EnumDefView>,
    d: int,
    name: Seq<char>,
)
    requires
        0 <= d < metric.labels.len(),
        metric.labels[d].arm == LabelArmView::Enum(name),
        lookup_enum(enums, name) is Some,
    ensures
        plan_of(metric, enums).labels[d].enum_name == Some(name),
        plan_of(metric, enums).labels[d].values == lookup_enum(enums, name)->0.values,
{
}

/// The place of the first field at or after `from` that is named `name`.
pub open spec fn field_index(values: Seq<ValueDefView>, name: Seq<char>, from: int) -> Option<int>
    decreases values.len() - from,
{
    if from < 0 || from >= values.len() {
        None
    } else if values[from].name == name {
        Some(from)
    } else {
        field_index(values, name, from + 1)
    }
}

/// No two values have the same name.
pub open spec fn distinct_names(values: Seq<ValueDefView>) -> bool {
    forall|i: int, j: int|
        0 <= i < j < values.len() ==> (#[trigger] values[i]).name != (#[trigger] values[j]).name
}

/// Where no two variants of an enum have the same name, looking a field up
/// by the name of variant `i` finds the field at place `i`: access by enum
/// value and access by field name lead to the same field.
pub proof fn lemma_variant_names_its_field(values: Seq<ValueDefView>, i: int, from: int)
    requires
        distinct_names(values),
        0 <= from <= i < values.len(),
    ensures
        field_index(values, values[i].name, from) == Some(i),
    decreases i - from,
{
    if from < i {
        lemma_variant_names_its_field(values, i, from + 1);
    }
}

/// The place of the first of `values` that is named `name`.
pub fn find_field(values: &Vec<MetricValueDef>, name: &str) -> (r: Option<usize>)
    ensures
        values@.len() <= usize::MAX,
        match field_index(values_view(values@), name@, 0) {
            Some(i) => r == Some(i as usize) && 0 <= i < values@.len(),
            None => r is None,
        },
{
    let ghost view = values_view(values@);
    let mut i: usize = 0;
    while i < values.len()
        invariant
            i <= values.len(),
            view == values_view(values@),
            field_index(view, name@, 0) == field_index(view, name@, i as int),
        decreases values.len() - i,
    {
        if values[i].name.is(name) {
            return Some(i);
        }
        i += 1;
    }
    None
}

/// Appends `name,` for each of `values`.
pub(crate) fn push_field_inits(ts: &mut TokenStream, values: &Vec<MetricValueDef>)
    ensures
        stream_lexemes(*final(ts)) == stream_lexemes(*old(ts)) + field_inits(
            values_view(values@),
            values@.len() as int,
        ),
{
    let ghost before = stream_lexemes(*ts);
    let mut i: usize = 0;
    while i < values.len()
        invariant
            i <= values.len(),
            stream_lexemes(*ts) == before + field_inits(values_view(values@), i as int),
        decreases values.len() - i,
    {
        push_name(ts, &values[i].name);
        push_alone(ts, ',');
        i += 1;
    }
}

/// The accessor `get` over the enum `enum_name`, for a type whose fields
/// are named by `values` and have the type `member`.
pub fn build_get_accessor(enum_name: &Ident, member: &Ident, values: &Vec<MetricValueDef>) -> (r:
    TokenStream)
    ensures
        stream_lexemes(r) == get_accessor(enum_name@, member@, values_view(values@)),
{
    let mut arms = new_stream();
    let mut i: usize = 0;
    while i < values.len()
        invariant
            i <= values.len(),
            stream_lexemes(arms) == get_arms(enum_name@, values_view(values@), i as int),
        decreases values.len() - i,
    {
        push_name(&mut arms, enum_name);
        push_path_sep(&mut arms);
        push_name(&mut arms, &values[i].name);
        push_fat_arrow(&mut arms);
        push_alone(&mut arms, '&');
        push_word(&mut arms, Word::SelfValue);
        push_alone(&mut arms, '.');
        push_name(&mut arms, &values[i].name);
        push_alone(&mut arms, ',');
        i += 1;
    }
    let mut params = new_stream();
    push_alone(&mut params, '&');
    push_word(&mut params, Word::SelfValue);
    push_alone(&mut params, ',');
    push_word(&mut params, Word::EnumValue);
    push_alone(&mut params, ':');
    push_name(&mut params, enum_name);
    let mut body = new_stream();
    push_word(&mut body, Word::Match);
    push_word(&mut body, Word::EnumValue);
    push_group(&mut body, Delim::Brace, arms);
    let mut out = new_stream();
    push_word(&mut out, Word::Pub);
    push_word(&mut out, Word::Fn);
    push_word(&mut out, Word::Get);
    push_group(&mut out, Delim::Paren, params);
    push_thin_arrow(&mut out);
    push_alone(&mut out, '&');
    push_name(&mut out, member);
    push_group(&mut out, Delim::Brace, body);
    out
}

} // verus!
