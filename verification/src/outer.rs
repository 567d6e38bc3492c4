use vstd::prelude::*;
use proc_macro2::TokenStream;
use crate::accessor::{
    build_get_accessor, field_inits, optional_get_accessor, push_field_inits,
};
use crate::inner::{field_decls, push_field_decls};
use crate::names::{delegator_name, inner_name};
use crate::offsets::field_offset;
use crate::plan::{plan_counts, MetricBuilderContext, PlanView};
use crate::syntax::{
    concat, local_key, name, number, path_sep, punct, push_alone, push_local_key, push_name,
    push_number, push_path_sep, push_self_only, push_thin_arrow, push_unit, self_only,
    thin_arrow, unit,
};
use crate::tokens::{
    append_all, grouped, new_stream, push_group, stream_lexemes, Delim, Lexeme,
};
use crate::words::{push_word, word, Word};

verus! {

/// The public handle of a metric: a struct with the handle to the thread's
/// root and one accessor for each value of the first label.
#[verifier::opaque]
pub open spec fn outer_struct(plan: PlanView) -> Seq<Lexeme> {
    let values = plan.labels[0].values;
    word(Word::Pub) + word(Word::Struct) + name(plan.struct_name) + grouped(
        Delim::Brace,
        word(Word::Inner) + punct(':') + local_key(inner_name(plan.struct_name, 0)) + punct(',')
            + field_decls(values, delegator_name(plan.struct_name, 0), values.len() as int),
    )
}

/// The accessor for value `i` of the first label: it gets the handle to the
/// thread's root and the offset of its field.
pub open spec fn outer_let(plan: PlanView, i: int) -> Seq<Lexeme> {
    word(Word::Let) + name(plan.labels[0].values[i].name) + punct('=') + name(
        delegator_name(plan.struct_name, 0),
    ) + path_sep() + word(Word::New) + grouped(
        Delim::Paren,
        word(Word::Inner) + punct(',') + number(field_offset(plan_counts(plan), 0, i) as usize)
            + punct(','),
    ) + punct(';')
}

/// The accessors for the first `k` values of the first label.
pub open spec fn outer_lets(plan: PlanView, k: int) -> Seq<Lexeme> {
    concat(k, |i: int| outer_let(plan, i))
}

/// The constructor of the public handle, from the handle to the thread's
/// root.
pub open spec fn outer_impl_from(plan: PlanView) -> Seq<Lexeme> {
    let values = plan.labels[0].values;
    word(Word::Pub) + word(Word::Fn) + word(Word::From) + grouped(
        Delim::Paren,
        word(Word::Inner) + punct(':') + local_key(inner_name(plan.struct_name, 0)),
    ) + thin_arrow() + name(plan.struct_name) + grouped(
        Delim::Brace,
        outer_lets(plan, values.len() as int) + name(plan.struct_name) + grouped(
            Delim::Brace,
            word(Word::Inner) + punct(',') + field_inits(values, values.len() as int),
        ),
    )
}

/// The accessor by enum value of the public handle: it is there where the
/// first label is declared by an enum.
pub open spec fn outer_impl_get(plan: PlanView) -> Seq<Lexeme> {
    optional_get_accessor(
        plan.labels[0].enum_name,
        delegator_name(plan.struct_name, 0),
        plan.labels[0].values,
    )
}

/// `flush` of the public handle: it flushes the tree of the thread that
/// calls it, and no other.
pub open spec fn outer_flush() -> Seq<Lexeme> {
    word(Word::Pub) + word(Word::Fn) + word(Word::Flush) + self_only() + grouped(
        Delim::Brace,
        word(Word::SelfValue) + punct('.') + word(Word::Inner) + punct('.') + word(Word::With)
            + grouped(
            Delim::Paren,
            punct('|') + word(Word::M) + punct('|') + word(Word::M) + punct('.') + word(
                Word::Flush,
            ) + unit(),
        ),
    )
}

/// The methods of the public handle.
#[verifier::opaque]
pub open spec fn outer_impl(plan: PlanView) -> Seq<Lexeme> {
    word(Word::Impl) + name(plan.struct_name) + grouped(
        Delim::Brace,
        outer_impl_from(plan) + outer_impl_get(plan) + outer_flush(),
    )
}

/// Appends `flush` of the public handle.
fn push_outer_flush(ts: &mut TokenStream)
    ensures
        stream_lexemes(*final(ts)) == stream_lexemes(*old(ts)) + outer_flush(),
{
    let mut closure = new_stream();
    push_alone(&mut closure, '|');
    push_word(&mut closure, Word::M);
    push_alone(&mut closure, '|');
    push_word(&mut closure, Word::M);
    push_alone(&mut closure, '.');
    push_word(&mut closure, Word::Flush);
    push_unit(&mut closure);
    let mut body = new_stream();
    push_word(&mut body, Word::SelfValue);
    push_alone(&mut body, '.');
    push_word(&mut body, Word::Inner);
    push_alone(&mut body, '.');
    push_word(&mut body, Word::With);
    push_group(&mut body, Delim::Paren, closure);
    push_word(ts, Word::Pub);
    push_word(ts, Word::Fn);
    push_word(ts, Word::Flush);
    push_self_only(ts);
    push_group(ts, Delim::Brace, body);
}

impl<'a> MetricBuilderContext<'a> {
    /// The public handle.
    pub(crate) fn build_outer_struct(&self) -> (r: TokenStream)
        requires
            self.wf(),
            self.label_index == 0,
        ensures
            stream_lexemes(r) == outer_struct(self.plan@),
    {
        proof {
            reveal(outer_struct);
        }
        let outer_struct_name = &self.struct_name;
        let inner_struct_name = self.inner_struct_name();
        let delegator_name = self.delegator_struct_name();
        let mut body = new_stream();
        push_word(&mut body, Word::Inner);
        push_alone(&mut body, ':');
        push_local_key(&mut body, &inner_struct_name);
        push_alone(&mut body, ',');
        push_field_decls(&mut body, self.values(), &delegator_name);
        let mut out = new_stream();
        push_word(&mut out, Word::Pub);
        push_word(&mut out, Word::Struct);
        push_name(&mut out, outer_struct_name);
        push_group(&mut out, Delim::Brace, body);
        out
    }

    /// The constructor of the public handle.
    pub(crate) fn build_outer_impl_from(&self) -> (r: TokenStream)
        requires
            self.wf(),
            self.label_index == 0,
        ensures
            stream_lexemes(r) == outer_impl_from(self.plan@),
    {
        let outer_struct_name = &self.struct_name;
        let inner_struct_name = self.inner_struct_name();
        let delegator_name = self.delegator_struct_name();
        let values = self.values();
        let mut body = new_stream();
        let mut i: usize = 0;
        while i < values.len()
            invariant
                i <= values.len(),
                self.wf(),
                self.label_index == 0,
                delegator_name@ == crate::names::delegator_name(self.plan@.struct_name, 0),
                crate::ast::values_view(values@) == self.plan@.labels[0].values,
                stream_lexemes(body) == outer_lets(self.plan@, i as int),
            decreases values.len() - i,
        {
            let offset = self.plan.offsets.offset_at(0, i);
            let mut args = new_stream();
            push_word(&mut args, Word::Inner);
            push_alone(&mut args, ',');
            push_number(&mut args, offset);
            push_alone(&mut args, ',');
            push_word(&mut body, Word::Let);
            push_name(&mut body, &values[i].name);
            push_alone(&mut body, '=');
            push_name(&mut body, &delegator_name);
            push_path_sep(&mut body);
            push_word(&mut body, Word::New);
            push_group(&mut body, Delim::Paren, args);
            push_alone(&mut body, ';');
            i += 1;
        }
        let mut fields = new_stream();
        push_word(&mut fields, Word::Inner);
        push_alone(&mut fields, ',');
        push_field_inits(&mut fields, values);
        push_name(&mut body, outer_struct_name);
        push_group(&mut body, Delim::Brace, fields);
        let mut params = new_stream();
        push_word(&mut params, Word::Inner);
        push_alone(&mut params, ':');
        push_local_key(&mut params, &inner_struct_name);
        let mut out = new_stream();
        push_word(&mut out, Word::Pub);
        push_word(&mut out, Word::Fn);
        push_word(&mut out, Word::From);
        push_group(&mut out, Delim::Paren, params);
        push_thin_arrow(&mut out);
        push_name(&mut out, outer_struct_name);
        push_group(&mut out, Delim::Brace, body);
        out
    }

    /// `fn get()` is only there when the label is declared by a
    /// `label_enum`.
    pub(crate) fn build_outer_impl_get(&self) -> (r: TokenStream)
        requires
            self.wf(),
            self.label_index == 0,
        ensures
            stream_lexemes(r) == outer_impl_get(self.plan@),
    {
        match self.plan.labels[0].enum_name {
            Some(e) => build_get_accessor(e, &self.delegator_struct_name(), self.values()),
            None => new_stream(),
        }
    }

    /// The methods of the public handle.
    pub(crate) fn build_outer_impl(&self) -> (r: TokenStream)
        requires
            self.wf(),
            self.label_index == 0,
        ensures
            stream_lexemes(r) == outer_impl(self.plan@),
    {
        proof {
            reveal(outer_impl);
        }
        let mut body = self.build_outer_impl_from();
        append_all(&mut body, self.build_outer_impl_get());
        push_outer_flush(&mut body);
        let mut out = new_stream();
        push_word(&mut out, Word::Impl);
        push_name(&mut out, &self.struct_name);
        push_group(&mut out, Delim::Brace, body);
        out
    }
}

} // verus!
