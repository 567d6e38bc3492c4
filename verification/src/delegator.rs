use vstd::prelude::*;
use proc_macro2::TokenStream;
use crate::accessor::{
    build_get_accessor, field_inits, optional_get_accessor, push_field_inits,
};
use crate::ast::{values_view, MetricValueDef};
use crate::ident::Ident;
use crate::inner::{field_decl, field_decls, push_field_decl, push_field_decls};
use crate::names::{
    delegator_member_type, delegator_name, get_offset_name, inner_name, offset_name,
};
use crate::offsets::field_offset;
use crate::plan::{plan_counts, MetricBuilderContext, PlanView};
use crate::syntax::{
    allow_attr, concat, lifetime, local_key, name, number, path_sep, punct, push_allow,
    push_alone, push_local_key, push_name, push_number, push_path_sep, push_thin_arrow,
    self_only, thin_arrow,
};
use crate::text::lower;
use crate::tokens::{
    append_all, grouped, new_stream, push_group, stream_lexemes, Delim, Lexeme,
};
use crate::words::{push_word, word, Word};

verus! {

/// The type of the fields of the accessor type of depth `d`.
pub open spec fn delegator_member(plan: PlanView, d: nat) -> Seq<char> {
    delegator_member_type(plan.struct_name, d, d == plan.labels.len() - 1)
}

/// `root: &'static LocalKey<Root>,`
pub open spec fn root_decl(root: Seq<char>) -> Seq<Lexeme> {
    word(Word::Root) + punct(':') + local_key(root) + punct(',')
}

/// The declarations of the first `k` offsets of a leaf accessor.
pub open spec fn offset_decls(ty: Seq<char>, k: int) -> Seq<Lexeme> {
    concat(k, |i: int| field_decl(offset_name((i + 1) as nat), ty))
}

/// The fields of the accessor type of depth `d`. At the leaf depth: the
/// handle to the thread's root and one offset for each depth. Above it: one
/// accessor of the next depth for each value of the next label.
pub open spec fn delegator_fields(plan: PlanView, d: nat) -> Seq<Lexeme> {
    if d == plan.labels.len() - 1 {
        root_decl(inner_name(plan.struct_name, 0)) + offset_decls(
            delegator_member(plan, d),
            plan.labels.len() as int,
        )
    } else {
        let next = plan.labels[d as int + 1].values;
        field_decls(next, delegator_member(plan, d), next.len() as int)
    }
}

/// The accessor type of depth `d`.
#[verifier::opaque]
pub open spec fn delegator_struct(plan: PlanView, d: nat) -> Seq<Lexeme> {
    allow_attr(Word::MissingCopyImplementations) + word(Word::Pub) + word(Word::Struct) + name(
        delegator_name(plan.struct_name, d),
    ) + grouped(Delim::Brace, delegator_fields(plan, d))
}

/// `offset_i: usize,`
pub open spec fn offset_param(i: nat) -> Seq<Lexeme> {
    name(offset_name(i)) + punct(':') + word(Word::Usize) + punct(',')
}

/// The parameters that carry the first `k` offsets.
pub open spec fn offset_params(k: int) -> Seq<Lexeme> {
    concat(k, |i: int| offset_param((i + 1) as nat))
}

/// `offset_i,`
pub open spec fn offset_arg(i: nat) -> Seq<Lexeme> {
    name(offset_name(i)) + punct(',')
}

/// The first `k` offsets, handed on as arguments.
pub open spec fn offset_args(k: int) -> Seq<Lexeme> {
    concat(k, |i: int| offset_arg((i + 1) as nat))
}

/// The accessor of the next depth for value `i` of the next label: it gets
/// the offsets so far and the offset of its own field.
pub open spec fn child_let(plan: PlanView, d: nat, i: int) -> Seq<Lexeme> {
    word(Word::Let) + name(plan.labels[d as int + 1].values[i].name) + punct('=') + name(
        delegator_member(plan, d),
    ) + path_sep() + word(Word::New) + grouped(
        Delim::Paren,
        word(Word::Root) + punct(',') + offset_args(d as int + 1) + number(
            field_offset(plan_counts(plan), d as int + 1, i) as usize,
        ) + punct(','),
    ) + punct(';')
}

/// The accessors for the first `k` values of the next label.
pub open spec fn child_lets(plan: PlanView, d: nat, k: int) -> Seq<Lexeme> {
    concat(k, |i: int| child_let(plan, d, i))
}

/// The body of the constructor of the accessor type of depth `d`.
pub open spec fn delegator_new_body(plan: PlanView, d: nat) -> Seq<Lexeme> {
    let delegator = delegator_name(plan.struct_name, d);
    if d == plan.labels.len() - 1 {
        name(delegator) + grouped(
            Delim::Brace,
            word(Word::Root) + punct(',') + offset_args(d as int + 1),
        )
    } else {
        let next = plan.labels[d as int + 1].values;
        child_lets(plan, d, next.len() as int) + name(delegator) + grouped(
            Delim::Brace,
            field_inits(next, next.len() as int),
        )
    }
}

/// The constructor of the accessor type of depth `d`: it takes the handle
/// to the thread's root and the offsets of the fields chosen down to its
/// depth.
pub open spec fn delegator_impl_new(plan: PlanView, d: nat) -> Seq<Lexeme> {
    word(Word::Pub) + word(Word::Fn) + word(Word::New) + grouped(
        Delim::Paren,
        root_decl(inner_name(plan.struct_name, 0)) + offset_params(d as int + 1),
    ) + thin_arrow() + name(delegator_name(plan.struct_name, d)) + grouped(
        Delim::Brace,
        delegator_new_body(plan, d),
    )
}

/// The accessor by enum value of the accessor type of depth `d`: it is
/// there where the next label, whose values name the fields, is declared by
/// an enum.
pub open spec fn delegator_impl_get(plan: PlanView, d: nat) -> Seq<Lexeme> {
    if d == plan.labels.len() - 1 {
        Seq::empty()
    } else {
        optional_get_accessor(
            plan.labels[d as int + 1].enum_name,
            delegator_member(plan, d),
            plan.labels[d as int + 1].values,
        )
    }
}

/// The methods of the accessor type of depth `d`.
#[verifier::opaque]
pub open spec fn delegator_impl(plan: PlanView, d: nat) -> Seq<Lexeme> {
    word(Word::Impl) + name(delegator_name(plan.struct_name, d)) + grouped(
        Delim::Brace,
        delegator_impl_new(plan, d) + delegator_impl_get(plan, d),
    )
}

/// The name of the variable that holds the node reached after `k` steps
/// from the root: the case-folded name of that node's type.
pub open spec fn node_var(plan: PlanView, k: nat) -> Seq<char> {
    if k < plan.labels.len() {
        lower(inner_name(plan.struct_name, k))
    } else {
        lower(plan.metric_type)
    }
}

/// Step `k` of a resolution: from the node reached so far to its field at
/// the `k + 1`-th offset. The first step starts at the root.
pub open spec fn offset_fetcher(plan: PlanView, k: int) -> Seq<Lexeme> {
    (if k == 0 {
        word(Word::Let) + name(node_var(plan, 0)) + punct('=') + word(Word::RootMetric) + punct(';')
    } else {
        Seq::empty()
    }) + word(Word::Let) + name(node_var(plan, (k + 1) as nat)) + punct('=') + name(
        node_var(plan, k as nat),
    ) + punct('.') + word(Word::Member) + grouped(
        Delim::Paren,
        word(Word::SelfValue) + punct('.') + name(offset_name((k + 1) as nat)),
    ) + punct(';')
}

/// The first `k` steps of a resolution.
pub open spec fn offset_fetchers(plan: PlanView, k: int) -> Seq<Lexeme> {
    concat(k, |i: int| offset_fetcher(plan, i))
}

/// `get_root_metric`: the handle to the thread's root.
pub open spec fn get_root_metric_fn(root: Seq<char>) -> Seq<Lexeme> {
    word(Word::Fn) + word(Word::GetRootMetric) + self_only() + thin_arrow() + local_key(root)
        + grouped(Delim::Brace, word(Word::SelfValue) + punct('.') + word(Word::Root))
}

/// `get_counter`: the leaf of the given root that the accessor stands for,
/// found by following its offsets in depth order.
pub open spec fn get_counter_fn(plan: PlanView) -> Seq<Lexeme> {
    let n = plan.labels.len();
    word(Word::Fn) + word(Word::GetCounter) + punct('<') + lifetime(Word::A) + punct('>')
        + grouped(
        Delim::Paren,
        punct('&') + word(Word::SelfValue) + punct(',') + word(Word::RootMetric) + punct(':')
            + punct('&') + lifetime(Word::A) + name(inner_name(plan.struct_name, 0)),
    ) + thin_arrow() + punct('&') + lifetime(Word::A) + name(plan.metric_type) + grouped(
        Delim::Brace,
        offset_fetchers(plan, n as int) + name(node_var(plan, n)),
    )
}

/// The leaf accessor as a delegator of the thread-local metric.
#[verifier::opaque]
pub open spec fn auto_flush_delegator(plan: PlanView) -> Seq<Lexeme> {
    let root = inner_name(plan.struct_name, 0);
    word(Word::Impl) + word(Word::Delegator) + punct('<') + name(root) + punct(',') + name(
        plan.metric_type,
    ) + punct('>') + word(Word::For) + name(
        delegator_name(plan.struct_name, (plan.labels.len() - 1) as nat),
    ) + grouped(Delim::Brace, get_root_metric_fn(root) + get_counter_fn(plan))
}

/// Appends `root: &'static LocalKey<Root>,`.
fn push_root_decl(ts: &mut TokenStream, root: &Ident)
    ensures
        stream_lexemes(*final(ts)) == stream_lexemes(*old(ts)) + root_decl(root@),
{
    push_word(ts, Word::Root);
    push_alone(ts, ':');
    push_local_key(ts, root);
    push_alone(ts, ',');
}

/// Appends the first `k` offsets as arguments.
fn push_offset_args(ts: &mut TokenStream, k: usize)
    ensures
        stream_lexemes(*final(ts)) == stream_lexemes(*old(ts)) + offset_args(k as int),
{
    let ghost before = stream_lexemes(*ts);
    let mut i: usize = 0;
    while i < k
        invariant
            i <= k,
            stream_lexemes(*ts) == before + offset_args(i as int),
        decreases k - i,
    {
        push_name(ts, &get_offset_name(i + 1));
        push_alone(ts, ',');
        i += 1;
    }
}

/// Appends the parameters that carry the first `k` offsets.
fn push_offset_params(ts: &mut TokenStream, k: usize)
    ensures
        stream_lexemes(*final(ts)) == stream_lexemes(*old(ts)) + offset_params(k as int),
{
    let ghost before = stream_lexemes(*ts);
    let mut i: usize = 0;
    while i < k
        invariant
            i <= k,
            stream_lexemes(*ts) == before + offset_params(i as int),
        decreases k - i,
    {
        push_name(ts, &get_offset_name(i + 1));
        push_alone(ts, ':');
        push_word(ts, Word::Usize);
        push_alone(ts, ',');
        i += 1;
    }
}

impl<'a> MetricBuilderContext<'a> {
    /// The values of the label of the next depth, which name the fields of
    /// this depth's accessor type.
    pub(crate) fn next_values(&self) -> (r: &'a Vec<MetricValueDef>)
        requires
            self.wf(),
            !self.is_last_label,
        ensures
            values_view(r@) == self.plan@.labels[self.label_index + 1].values,
    {
        self.plan.labels[self.label_index + 1].values
    }

    /// The accessor type of this depth.
    pub(crate) fn build_delegator_struct(&self) -> (r: TokenStream)
        requires
            self.wf(),
        ensures
            stream_lexemes(r) == delegator_struct(self.plan@, self.depth()),
    {
        proof {
            reveal(delegator_struct);
        }
        let struct_name = self.delegator_struct_name();
        let mut body = new_stream();
        if self.is_last_label {
            push_root_decl(&mut body, &self.root_inner_name());
            let n = self.plan.depth();
            let ghost before = stream_lexemes(body);
            let mut i: usize = 0;
            while i < n
                invariant
                    i <= n,
                    stream_lexemes(body) == before + offset_decls(
                        self.delegator_member_type@,
                        i as int,
                    ),
                decreases n - i,
            {
                push_field_decl(&mut body, &get_offset_name(i + 1), &self.delegator_member_type);
                i += 1;
            }
        } else {
            push_field_decls(&mut body, self.next_values(), &self.delegator_member_type);
        }
        let mut out = new_stream();
        push_allow(&mut out, Word::MissingCopyImplementations);
        push_word(&mut out, Word::Pub);
        push_word(&mut out, Word::Struct);
        push_name(&mut out, &struct_name);
        push_group(&mut out, Delim::Brace, body);
        out
    }

    /// The body of the constructor of this depth's accessor type.
    fn build_delegator_new_body(&self) -> (r: TokenStream)
        requires
            self.wf(),
        ensures
            stream_lexemes(r) == delegator_new_body(self.plan@, self.depth()),
    {
        let delegator_name = self.delegator_struct_name();
        let mut out = new_stream();
        let mut fields = new_stream();
        if self.is_last_label {
            push_word(&mut fields, Word::Root);
            push_alone(&mut fields, ',');
            push_offset_args(&mut fields, self.label_index + 1);
        } else {
            let next = self.next_values();
            let mut i: usize = 0;
            while i < next.len()
                invariant
                    i <= next.len(),
                    self.wf(),
                    !self.is_last_label,
                    values_view(next@) == self.plan@.labels[self.label_index + 1].values,
                    stream_lexemes(out) == child_lets(self.plan@, self.depth(), i as int),
                decreases next.len() - i,
            {
                let offset = self.plan.offsets.offset_at(self.label_index + 1, i);
                let mut args = new_stream();
                push_word(&mut args, Word::Root);
                push_alone(&mut args, ',');
                push_offset_args(&mut args, self.label_index + 1);
                push_number(&mut args, offset);
                push_alone(&mut args, ',');
                push_word(&mut out, Word::Let);
                push_name(&mut out, &next[i].name);
                push_alone(&mut out, '=');
                push_name(&mut out, &self.delegator_member_type);
                push_path_sep(&mut out);
                push_word(&mut out, Word::New);
                push_group(&mut out, Delim::Paren, args);
                push_alone(&mut out, ';');
                i += 1;
            }
            push_field_inits(&mut fields, next);
        }
        push_name(&mut out, &delegator_name);
        push_group(&mut out, Delim::Brace, fields);
        out
    }

    /// The constructor of the accessor type.
    pub(crate) fn build_delegator_impl_new(&self) -> (r: TokenStream)
        requires
            self.wf(),
        ensures
            stream_lexemes(r) == delegator_impl_new(self.plan@, self.depth()),
    {
        let delegator_name = self.delegator_struct_name();
        let body = self.build_delegator_new_body();
        let mut params = new_stream();
        push_root_decl(&mut params, &self.root_inner_name());
        push_offset_params(&mut params, self.label_index + 1);
        let mut out = new_stream();
        push_word(&mut out, Word::Pub);
        push_word(&mut out, Word::Fn);
        push_word(&mut out, Word::New);
        push_group(&mut out, Delim::Paren, params);
        push_thin_arrow(&mut out);
        push_name(&mut out, &delegator_name);
        push_group(&mut out, Delim::Brace, body);
        out
    }

    /// `fn get()` is only there when the label that names the fields is
    /// declared by a `label_enum`.
    pub(crate) fn build_delegator_impl_get(&self) -> (r: TokenStream)
        requires
            self.wf(),
        ensures
            stream_lexemes(r) == delegator_impl_get(self.plan@, self.depth()),
    {
        if self.is_last_label {
            return new_stream();
        }
        match self.plan.labels[self.label_index + 1].enum_name {
            Some(e) => build_get_accessor(e, &self.delegator_member_type, self.next_values()),
            None => new_stream(),
        }
    }

    /// The methods of the accessor type.
    pub(crate) fn build_delegator_impl(&self) -> (r: TokenStream)
        requires
            self.wf(),
        ensures
            stream_lexemes(r) == delegator_impl(self.plan@, self.depth()),
    {
        proof {
            reveal(delegator_impl);
        }
        let struct_name = self.delegator_struct_name();
        let mut body = self.build_delegator_impl_new();
        append_all(&mut body, self.build_delegator_impl_get());
        let mut out = new_stream();
        push_word(&mut out, Word::Impl);
        push_name(&mut out, &struct_name);
        push_group(&mut out, Delim::Brace, body);
        out
    }
}

} // verus!
