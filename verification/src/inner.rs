use vstd::prelude::*;
use proc_macro2::TokenStream;
use crate::accessor::{build_get_accessor, optional_get_accessor};
use crate::ast::{values_view, MetricValueDef, ValueDefView};
use crate::ident::Ident;
use crate::names::{
    get_label_param, get_metric_vec_type, inner_member_type, inner_name, is_local_metric,
    is_local_metric_type, label_param, metric_vec_type,
};
use crate::offsets::field_offset;
use crate::plan::{plan_counts, MetricBuilderContext, PlanView};
use crate::syntax::{
    allow_attr, concat, fat_arrow, name, number, path_sep, punct, push_allow, push_alone,
    push_fat_arrow, push_name, push_number, push_path_sep, push_self_only, push_string,
    push_thin_arrow, push_unit, self_only, string, thin_arrow, unit,
};
use crate::tokens::{
    append_all, grouped, new_stream, push_group, stream_lexemes, Delim, Lexeme,
};
use crate::words::{push_word, word, Word};

verus! {

/// The number of time units after which a touched root flushes itself.
pub const FLUSH_INTERVAL: usize = 1;

/// The type of the fields of the storage type of depth `d`.
pub open spec fn inner_member(plan: PlanView, d: nat) -> Seq<char> {
    inner_member_type(plan.struct_name, d, plan.metric_type, d == plan.labels.len() - 1)
}

/// `pub field: ty,`
pub open spec fn field_decl(field: Seq<char>, ty: Seq<char>) -> Seq<Lexeme> {
    word(Word::Pub) + name(field) + punct(':') + name(ty) + punct(',')
}

/// The declarations of the first `k` fields, one for each value.
pub open spec fn field_decls(values: Seq<ValueDefView>, ty: Seq<char>, k: int) -> Seq<Lexeme> {
    concat(k, |i: int| field_decl(values[i].name, ty))
}

/// `last_flush: Cell<Instant>,` at the root, which alone remembers when it
/// was flushed; nothing below.
pub open spec fn last_flush_decl(d: nat) -> Seq<Lexeme> {
    if d == 0 {
        word(Word::LastFlush) + punct(':') + word(Word::Cell) + punct('<') + word(Word::Instant)
            + punct('>') + punct(',')
    } else {
        Seq::empty()
    }
}

/// The storage type of depth `d`: a struct with one field for each value of
/// the label of that depth.
#[verifier::opaque]
pub open spec fn inner_struct(plan: PlanView, d: nat) -> Seq<Lexeme> {
    let values = plan.labels[d as int].values;
    allow_attr(Word::MissingCopyImplementations) + word(Word::Pub) + word(Word::Struct) + name(
        inner_name(plan.struct_name, d),
    ) + grouped(
        Delim::Brace,
        field_decls(values, inner_member(plan, d), values.len() as int) + last_flush_decl(d),
    )
}

/// `label_i: &str,`
pub open spec fn label_param_decl(i: nat) -> Seq<Lexeme> {
    name(label_param(i)) + punct(':') + punct('&') + word(Word::Str) + punct(',')
}

/// The parameters that carry the label strings of the depths above `k`.
pub open spec fn label_param_decls(k: int) -> Seq<Lexeme> {
    concat(k, |i: int| label_param_decl(i as nat))
}

/// `label_i,`
pub open spec fn label_arg(i: nat) -> Seq<Lexeme> {
    name(label_param(i)) + punct(',')
}

/// The label strings of the depths above `k`, handed on as arguments.
pub open spec fn label_args(k: int) -> Seq<Lexeme> {
    concat(k, |i: int| label_arg(i as nat))
}

/// `coll.insert(key, value);`
pub open spec fn insert_stmt(key: Seq<Lexeme>, value: Seq<Lexeme>) -> Seq<Lexeme> {
    word(Word::Coll) + punct('.') + word(Word::Insert) + grouped(
        Delim::Paren,
        key + punct(',') + value,
    ) + punct(';')
}

/// The entries for the labels of the depths above `k`: each key with the
/// parameter that carries its label string.
pub open spec fn prev_inserts(plan: PlanView, k: int) -> Seq<Lexeme> {
    concat(k, |i: int| insert_stmt(string(plan.labels[i].key), name(label_param(i as nat))))
}

/// The statements that build the full mapping from label keys to label
/// strings for one leaf: the labels above, then the leaf's own.
pub open spec fn label_map(plan: PlanView, d: nat, value: Seq<char>) -> Seq<Lexeme> {
    word(Word::Let) + word(Word::Mut) + word(Word::Coll) + punct('=') + word(Word::HashMap)
        + path_sep() + word(Word::New) + unit() + punct(';') + prev_inserts(plan, d as int)
        + insert_stmt(string(plan.labels[d as int].key), string(value)) + word(Word::Coll)
}

/// `.local()` for a metric kind that is kept per thread, nothing otherwise.
pub open spec fn local_suffix(metric_type: Seq<char>) -> Seq<Lexeme> {
    if is_local_metric(metric_type) {
        punct('.') + word(Word::Local) + unit()
    } else {
        Seq::empty()
    }
}

/// The initialiser of a leaf field: the metric that the shared vector
/// holds for the full mapping of labels.
pub open spec fn leaf_field(plan: PlanView, d: nat, value: ValueDefView) -> Seq<Lexeme> {
    name(value.name) + punct(':') + word(Word::M) + punct('.') + word(Word::With) + grouped(
        Delim::Paren,
        punct('&') + grouped(Delim::Brace, label_map(plan, d, value.value)),
    ) + local_suffix(plan.metric_type) + punct(',')
}

/// The initialiser of a field above the leaves: the node of the next depth,
/// made from the label strings so far and the field's own.
pub open spec fn branch_field(plan: PlanView, d: nat, value: ValueDefView) -> Seq<Lexeme> {
    name(value.name) + punct(':') + name(inner_member(plan, d)) + path_sep() + word(Word::From)
        + grouped(
        Delim::Paren,
        label_args(d as int) + string(value.value) + punct(',') + word(Word::M) + punct(','),
    ) + punct(',')
}

/// The initialiser of the field for `value` at depth `d`.
pub open spec fn from_field(plan: PlanView, d: nat, value: ValueDefView) -> Seq<Lexeme> {
    if d == plan.labels.len() - 1 {
        leaf_field(plan, d, value)
    } else {
        branch_field(plan, d, value)
    }
}

/// The initialisers of the first `k` fields of depth `d`.
pub open spec fn from_fields(plan: PlanView, d: nat, k: int) -> Seq<Lexeme> {
    concat(k, |i: int| from_field(plan, d, plan.labels[d as int].values[i]))
}

/// `last_flush: Cell::new(Instant::now()),` at the root, nothing below.
pub open spec fn init_instant(d: nat) -> Seq<Lexeme> {
    if d == 0 {
        word(Word::LastFlush) + punct(':') + word(Word::Cell) + path_sep() + word(Word::New)
            + grouped(Delim::Paren, word(Word::Instant) + path_sep() + word(Word::Now) + unit())
            + punct(',')
    } else {
        Seq::empty()
    }
}

/// The field initialisers of the constructor of depth `d`.
pub open spec fn inner_impl_from_body(plan: PlanView, d: nat) -> Seq<Lexeme> {
    from_fields(plan, d, plan.labels[d as int].values.len() as int) + init_instant(d)
}

/// The constructor of the storage type of depth `d`: it takes the label
/// strings chosen above and the shared vector.
pub open spec fn inner_impl_from(plan: PlanView, d: nat) -> Seq<Lexeme> {
    let inner = inner_name(plan.struct_name, d);
    word(Word::Pub) + word(Word::Fn) + word(Word::From) + grouped(
        Delim::Paren,
        label_param_decls(d as int) + word(Word::M) + punct(':') + punct('&') + name(
            metric_vec_type(plan.metric_type),
        ),
    ) + thin_arrow() + name(inner) + grouped(
        Delim::Brace,
        name(inner) + grouped(Delim::Brace, inner_impl_from_body(plan, d)),
    )
}

/// `self.field.flush();`
pub open spec fn flush_call(field: Seq<char>) -> Seq<Lexeme> {
    word(Word::SelfValue) + punct('.') + name(field) + punct('.') + word(Word::Flush) + unit()
        + punct(';')
}

/// The flush of each of the first `k` fields.
pub open spec fn flush_calls(values: Seq<ValueDefView>, k: int) -> Seq<Lexeme> {
    concat(k, |i: int| flush_call(values[i].name))
}

/// `flush` of the storage type of depth `d`: it flushes every field.
pub open spec fn inner_impl_flush(plan: PlanView, d: nat) -> Seq<Lexeme> {
    let values = plan.labels[d as int].values;
    word(Word::Pub) + word(Word::Fn) + word(Word::Flush) + self_only() + grouped(
        Delim::Brace,
        flush_calls(values, values.len() as int),
    )
}

/// `offset => &self.field,`
pub open spec fn member_arm(offset: usize, field: Seq<char>) -> Seq<Lexeme> {
    number(offset) + fat_arrow() + punct('&') + word(Word::SelfValue) + punct('.') + name(field)
        + punct(',')
}

/// One arm for each of the first `k` fields of depth `d`, keyed by the
/// field's offset.
pub open spec fn member_arms(plan: PlanView, d: nat, k: int) -> Seq<Lexeme> {
    concat(
        k,
        |i: int|
            member_arm(
                field_offset(plan_counts(plan), d as int, i) as usize,
                plan.labels[d as int].values[i].name,
            ),
    )
}

/// `member` of the storage type of depth `d`: the field that lies at a
/// given offset.
pub open spec fn inner_impl_member(plan: PlanView, d: nat) -> Seq<Lexeme> {
    word(Word::Pub) + word(Word::Fn) + word(Word::Member) + grouped(
        Delim::Paren,
        punct('&') + word(Word::SelfValue) + punct(',') + word(Word::Offset) + punct(':') + word(
            Word::Usize,
        ),
    ) + thin_arrow() + punct('&') + name(inner_member(plan, d)) + grouped(
        Delim::Brace,
        word(Word::Match) + word(Word::Offset) + grouped(
            Delim::Brace,
            member_arms(plan, d, plan.labels[d as int].values.len() as int) + word(
                Word::Underscore,
            ) + fat_arrow() + word(Word::Unreachable) + punct('!') + unit() + punct(','),
        ),
    )
}

/// The accessor by enum value of the storage type of depth `d`: it is
/// there where the label of that depth is declared by an enum.
pub open spec fn inner_impl_get(plan: PlanView, d: nat) -> Seq<Lexeme> {
    optional_get_accessor(
        plan.labels[d as int].enum_name,
        inner_member(plan, d),
        plan.labels[d as int].values,
    )
}

/// The methods of the storage type of depth `d`.
#[verifier::opaque]
pub open spec fn inner_impl(plan: PlanView, d: nat) -> Seq<Lexeme> {
    word(Word::Impl) + name(inner_name(plan.struct_name, d)) + grouped(
        Delim::Brace,
        inner_impl_from(plan, d) + inner_impl_flush(plan, d) + inner_impl_member(plan, d)
            + inner_impl_get(plan, d),
    )
}

/// `::prometheus::local::item`
pub open spec fn prometheus_local(item: Word) -> Seq<Lexeme> {
    path_sep() + word(Word::Prometheus) + path_sep() + word(Word::Local) + path_sep() + word(item)
}

/// The root as a local metric: its flush is the one of its type.
pub open spec fn local_metric_impl(inner: Seq<char>) -> Seq<Lexeme> {
    word(Word::Impl) + prometheus_local(Word::LocalMetric) + word(Word::For) + name(inner)
        + grouped(
        Delim::Brace,
        word(Word::Fn) + word(Word::Flush) + self_only() + grouped(
            Delim::Brace,
            name(inner) + path_sep() + word(Word::Flush) + grouped(
                Delim::Paren,
                word(Word::SelfValue),
            ) + punct(';'),
        ),
    )
}

/// The root as a metric that may flush itself: it does so when the flush
/// interval has passed since it last did.
pub open spec fn may_flush_impl(inner: Seq<char>) -> Seq<Lexeme> {
    word(Word::Impl) + prometheus_local(Word::MayFlush) + word(Word::For) + name(inner) + grouped(
        Delim::Brace,
        word(Word::Fn) + word(Word::MayFlushMethod) + self_only() + grouped(
            Delim::Brace,
            word(Word::MayFlush) + path_sep() + word(Word::TryFlush) + grouped(
                Delim::Paren,
                word(Word::SelfValue) + punct(',') + punct('&') + word(Word::SelfValue) + punct(
                    '.',
                ) + word(Word::LastFlush) + punct(',') + number(FLUSH_INTERVAL) + word(Word::As)
                    + word(Word::Float),
            ),
        ),
    )
}

/// The trait impls of the storage type: those of a flushing local metric
/// at the root, none below.
#[verifier::opaque]
pub open spec fn inner_trait_impl(plan: PlanView, d: nat) -> Seq<Lexeme> {
    if d == 0 {
        local_metric_impl(inner_name(plan.struct_name, 0)) + may_flush_impl(
            inner_name(plan.struct_name, 0),
        )
    } else {
        Seq::empty()
    }
}

/// Appends `pub field: ty,`.
pub(crate) fn push_field_decl(ts: &mut TokenStream, field: &Ident, ty: &Ident)
    ensures
        stream_lexemes(*final(ts)) == stream_lexemes(*old(ts)) + field_decl(field@, ty@),
{
    push_word(ts, Word::Pub);
    push_name(ts, field);
    push_alone(ts, ':');
    push_name(ts, ty);
    push_alone(ts, ',');
}

/// Appends a declaration `pub name: ty,` for each of `values`.
pub(crate) fn push_field_decls(ts: &mut TokenStream, values: &Vec<MetricValueDef>, ty: &Ident)
    ensures
        stream_lexemes(*final(ts)) == stream_lexemes(*old(ts)) + field_decls(
            values_view(values@),
            ty@,
            values@.len() as int,
        ),
{
    let ghost view = values_view(values@);
    let ghost before = stream_lexemes(*ts);
    let mut i: usize = 0;
    while i < values.len()
        invariant
            i <= values.len(),
            view == values_view(values@),
            stream_lexemes(*ts) == before + field_decls(view, ty@, i as int),
        decreases values.len() - i,
    {
        push_field_decl(ts, &values[i].name, ty);
        i += 1;
    }
}

/// Appends `coll.insert(key, value);`, with the tokens of the key and the
/// value given.
fn push_insert_stmt(ts: &mut TokenStream, key: TokenStream, value: TokenStream)
    ensures
        stream_lexemes(*final(ts)) == stream_lexemes(*old(ts)) + insert_stmt(
            stream_lexemes(key),
            stream_lexemes(value),
        ),
{
    let mut args = key;
    push_alone(&mut args, ',');
    append_all(&mut args, value);
    push_word(ts, Word::Coll);
    push_alone(ts, '.');
    push_word(ts, Word::Insert);
    push_group(ts, Delim::Paren, args);
    push_alone(ts, ';');
}

/// Appends the label strings of the depths above `k` as arguments.
fn push_label_args(ts: &mut TokenStream, k: usize)
    ensures
        stream_lexemes(*final(ts)) == stream_lexemes(*old(ts)) + label_args(k as int),
{
    let ghost before = stream_lexemes(*ts);
    let mut i: usize = 0;
    while i < k
        invariant
            i <= k,
            stream_lexemes(*ts) == before + label_args(i as int),
        decreases k - i,
    {
        let param = get_label_param(i);
        push_name(ts, &param);
        push_alone(ts, ',');
        i += 1;
    }
}

/// Appends the parameters that carry the label strings of the depths above
/// `k`.
fn push_label_param_decls(ts: &mut TokenStream, k: usize)
    ensures
        stream_lexemes(*final(ts)) == stream_lexemes(*old(ts)) + label_param_decls(k as int),
{
    let ghost before = stream_lexemes(*ts);
    let mut i: usize = 0;
    while i < k
        invariant
            i <= k,
            stream_lexemes(*ts) == before + label_param_decls(i as int),
        decreases k - i,
    {
        let param = get_label_param(i);
        push_name(ts, &param);
        push_alone(ts, ':');
        push_alone(ts, '&');
        push_word(ts, Word::Str);
        push_alone(ts, ',');
        i += 1;
    }
}

impl<'a> MetricBuilderContext<'a> {
    /// The values of the label of this depth.
    pub(crate) fn values(&self) -> (r: &'a Vec<MetricValueDef>)
        requires
            self.wf(),
        ensures
            values_view(r@) == self.plan@.labels[self.label_index as int].values,
    {
        self.plan.labels[self.label_index].values
    }

    /// The storage type of this depth.
    pub(crate) fn build_inner_struct(&self) -> (r: TokenStream)
        requires
            self.wf(),
        ensures
            stream_lexemes(r) == inner_struct(self.plan@, self.depth()),
    {
        proof {
            reveal(inner_struct);
        }
        let struct_name = self.inner_struct_name();
        let mut body = new_stream();
        push_field_decls(&mut body, self.values(), &self.inner_member_type);
        if self.label_index == 0 {
            push_word(&mut body, Word::LastFlush);
            push_alone(&mut body, ':');
            push_word(&mut body, Word::Cell);
            push_alone(&mut body, '<');
            push_word(&mut body, Word::Instant);
            push_alone(&mut body, '>');
            push_alone(&mut body, ',');
        }
        let mut out = new_stream();
        push_allow(&mut out, Word::MissingCopyImplementations);
        push_word(&mut out, Word::Pub);
        push_word(&mut out, Word::Struct);
        push_name(&mut out, &struct_name);
        push_group(&mut out, Delim::Brace, body);
        out
    }

    /// The statements that build the mapping of labels for the leaf whose
    /// own label string is `value`.
    fn build_label_map(&self, value: &str) -> (r: TokenStream)
        requires
            self.wf(),
        ensures
            stream_lexemes(r) == label_map(self.plan@, self.depth(), value@),
    {
        let mut out = new_stream();
        push_word(&mut out, Word::Let);
        push_word(&mut out, Word::Mut);
        push_word(&mut out, Word::Coll);
        push_alone(&mut out, '=');
        push_word(&mut out, Word::HashMap);
        push_path_sep(&mut out);
        push_word(&mut out, Word::New);
        push_unit(&mut out);
        push_alone(&mut out, ';');
        let ghost before = stream_lexemes(out);
        let mut i: usize = 0;
        while i < self.label_index
            invariant
                i <= self.label_index,
                self.wf(),
                stream_lexemes(out) == before + prev_inserts(self.plan@, i as int),
            decreases self.label_index - i,
        {
            let mut key = new_stream();
            push_string(&mut key, self.plan.labels[i].key.as_str());
            let mut param = new_stream();
            push_name(&mut param, &get_label_param(i));
            push_insert_stmt(&mut out, key, param);
            i += 1;
        }
        let mut key = new_stream();
        push_string(&mut key, self.plan.labels[self.label_index].key.as_str());
        let mut own = new_stream();
        push_string(&mut own, value);
        push_insert_stmt(&mut out, key, own);
        push_word(&mut out, Word::Coll);
        out
    }

    /// The initialiser of the field for `value`.
    fn build_from_field(&self, value: &MetricValueDef) -> (r: TokenStream)
        requires
            self.wf(),
        ensures
            stream_lexemes(r) == from_field(self.plan@, self.depth(), value@),
    {
        let mut out = new_stream();
        push_name(&mut out, &value.name);
        push_alone(&mut out, ':');
        if self.is_last_label {
            let map = self.build_label_map(value.value.as_str());
            let mut arg = new_stream();
            push_alone(&mut arg, '&');
            push_group(&mut arg, Delim::Brace, map);
            push_word(&mut out, Word::M);
            push_alone(&mut out, '.');
            push_word(&mut out, Word::With);
            push_group(&mut out, Delim::Paren, arg);
            if is_local_metric_type(&self.plan.metric.metric_type) {
                push_alone(&mut out, '.');
                push_word(&mut out, Word::Local);
                push_unit(&mut out);
            }
            push_alone(&mut out, ',');
        } else {
            let mut args = new_stream();
            push_label_args(&mut args, self.label_index);
            push_string(&mut args, value.value.as_str());
            push_alone(&mut args, ',');
            push_word(&mut args, Word::M);
            push_alone(&mut args, ',');
            push_name(&mut out, &self.inner_member_type);
            push_path_sep(&mut out);
            push_word(&mut out, Word::From);
            push_group(&mut out, Delim::Paren, args);
            push_alone(&mut out, ',');
        }
        out
    }

    /// The field initialisers of the constructor of the storage type.
    pub(crate) fn build_inner_impl_from_body(&self) -> (r: TokenStream)
        requires
            self.wf(),
        ensures
            stream_lexemes(r) == inner_impl_from_body(self.plan@, self.depth()),
    {
        let values = self.values();
        let mut out = new_stream();
        let mut i: usize = 0;
        while i < values.len()
            invariant
                i <= values.len(),
                self.wf(),
                values_view(values@) == self.plan@.labels[self.label_index as int].values,
                stream_lexemes(out) == from_fields(self.plan@, self.depth(), i as int),
            decreases values.len() - i,
        {
            let field = self.build_from_field(&values[i]);
            append_all(&mut out, field);
            i += 1;
        }
        if self.label_index == 0 {
            let mut now = new_stream();
            push_word(&mut now, Word::Instant);
            push_path_sep(&mut now);
            push_word(&mut now, Word::Now);
            push_unit(&mut now);
            push_word(&mut out, Word::LastFlush);
            push_alone(&mut out, ':');
            push_word(&mut out, Word::Cell);
            push_path_sep(&mut out);
            push_word(&mut out, Word::New);
            push_group(&mut out, Delim::Paren, now);
            push_alone(&mut out, ',');
        }
        out
    }

    /// The constructor of the storage type.
    pub(crate) fn build_inner_impl_from(&self) -> (r: TokenStream)
        requires
            self.wf(),
        ensures
            stream_lexemes(r) == inner_impl_from(self.plan@, self.depth()),
    {
        let struct_name = self.inner_struct_name();
        let metric_vec_type = get_metric_vec_type(&self.plan.metric.metric_type);
        let body = self.build_inner_impl_from_body();
        let mut params = new_stream();
        push_label_param_decls(&mut params, self.label_index);
        push_word(&mut params, Word::M);
        push_alone(&mut params, ':');
        push_alone(&mut params, '&');
        push_name(&mut params, &metric_vec_type);
        let mut literal = new_stream();
        push_name(&mut literal, &struct_name);
        push_group(&mut literal, Delim::Brace, body);
        let mut out = new_stream();
        push_word(&mut out, Word::Pub);
        push_word(&mut out, Word::Fn);
        push_word(&mut out, Word::From);
        push_group(&mut out, Delim::Paren, params);
        push_thin_arrow(&mut out);
        push_name(&mut out, &struct_name);
        push_group(&mut out, Delim::Brace, literal);
        out
    }

    /// `flush` of the storage type.
    pub(crate) fn build_inner_impl_flush(&self) -> (r: TokenStream)
        requires
            self.wf(),
        ensures
            stream_lexemes(r) == inner_impl_flush(self.plan@, self.depth()),
    {
        let values = self.values();
        let mut body = new_stream();
        let mut i: usize = 0;
        while i < values.len()
            invariant
                i <= values.len(),
                stream_lexemes(body) == flush_calls(values_view(values@), i as int),
            decreases values.len() - i,
        {
            push_word(&mut body, Word::SelfValue);
            push_alone(&mut body, '.');
            push_name(&mut body, &values[i].name);
            push_alone(&mut body, '.');
            push_word(&mut body, Word::Flush);
            push_unit(&mut body);
            push_alone(&mut body, ';');
            i += 1;
        }
        let mut out = new_stream();
        push_word(&mut out, Word::Pub);
        push_word(&mut out, Word::Fn);
        push_word(&mut out, Word::Flush);
        push_self_only(&mut out);
        push_group(&mut out, Delim::Brace, body);
        out
    }

    /// The accessor that replaces address arithmetic: it maps the offset of
    /// a field to the field.
    pub(crate) fn build_inner_impl_member(&self) -> (r: TokenStream)
        requires
            self.wf(),
        ensures
            stream_lexemes(r) == inner_impl_member(self.plan@, self.depth()),
    {
        let values = self.values();
        let mut arms = new_stream();
        let mut i: usize = 0;
        while i < values.len()
            invariant
                i <= values.len(),
                self.wf(),
                values_view(values@) == self.plan@.labels[self.label_index as int].values,
                stream_lexemes(arms) == member_arms(self.plan@, self.depth(), i as int),
            decreases values.len() - i,
        {
            let offset = self.plan.offsets.offset_at(self.label_index, i);
            push_number(&mut arms, offset);
            push_fat_arrow(&mut arms);
            push_alone(&mut arms, '&');
            push_word(&mut arms, Word::SelfValue);
            push_alone(&mut arms, '.');
            push_name(&mut arms, &values[i].name);
            push_alone(&mut arms, ',');
            i += 1;
        }
        push_word(&mut arms, Word::Underscore);
        push_fat_arrow(&mut arms);
        push_word(&mut arms, Word::Unreachable);
        push_alone(&mut arms, '!');
        push_unit(&mut arms);
        push_alone(&mut arms, ',');
        let mut params = new_stream();
        push_alone(&mut params, '&');
        push_word(&mut params, Word::SelfValue);
        push_alone(&mut params, ',');
        push_word(&mut params, Word::Offset);
        push_alone(&mut params, ':');
        push_word(&mut params, Word::Usize);
        let mut body = new_stream();
        push_word(&mut body, Word::Match);
        push_word(&mut body, Word::Offset);
        push_group(&mut body, Delim::Brace, arms);
        let mut out = new_stream();
        push_word(&mut out, Word::Pub);
        push_word(&mut out, Word::Fn);
        push_word(&mut out, Word::Member);
        push_group(&mut out, Delim::Paren, params);
        push_thin_arrow(&mut out);
        push_alone(&mut out, '&');
        push_name(&mut out, &self.inner_member_type);
        push_group(&mut out, Delim::Brace, body);
        out
    }

    /// `fn get()` is only there when the label is declared by a
    /// `label_enum`.
    pub(crate) fn build_inner_impl_get(&self) -> (r: TokenStream)
        requires
            self.wf(),
        ensures
            stream_lexemes(r) == inner_impl_get(self.plan@, self.depth()),
    {
        match self.plan.labels[self.label_index].enum_name {
            Some(e) => build_get_accessor(e, &self.inner_member_type, self.values()),
            None => new_stream(),
        }
    }

    /// The methods of the storage type.
    pub(crate) fn build_inner_impl(&self) -> (r: TokenStream)
        requires
            self.wf(),
        ensures
            stream_lexemes(r) == inner_impl(self.plan@, self.depth()),
    {
        proof {
            reveal(inner_impl);
        }
        let struct_name = self.inner_struct_name();
        let mut body = self.build_inner_impl_from();
        append_all(&mut body, self.build_inner_impl_flush());
        append_all(&mut body, self.build_inner_impl_member());
        append_all(&mut body, self.build_inner_impl_get());
        let mut out = new_stream();
        push_word(&mut out, Word::Impl);
        push_name(&mut out, &struct_name);
        push_group(&mut out, Delim::Brace, body);
        out
    }

    /// The trait impls of the storage type.
    pub(crate) fn build_inner_trait_impl(&self) -> (r: TokenStream)
        requires
            self.wf(),
        ensures
            stream_lexemes(r) == inner_trait_impl(self.plan@, self.depth()),
    {
        proof {
            reveal(inner_trait_impl);
        }
        let mut out = new_stream();
        if self.label_index == 0 {
            let struct_name = self.inner_struct_name();
            push_local_metric_impl(&mut out, &struct_name);
            push_may_flush_impl(&mut out, &struct_name);
        }
        out
    }
}

/// Appends `::prometheus::local::item`.
fn push_prometheus_local(ts: &mut TokenStream, item: Word)
    ensures
        stream_lexemes(*final(ts)) == stream_lexemes(*old(ts)) + prometheus_local(item),
{
    push_path_sep(ts);
    push_word(ts, Word::Prometheus);
    push_path_sep(ts);
    push_word(ts, Word::Local);
    push_path_sep(ts);
    push_word(ts, item);
}

/// Appends the impl that makes the root a local metric.
fn push_local_metric_impl(ts: &mut TokenStream, inner: &Ident)
    ensures
        stream_lexemes(*final(ts)) == stream_lexemes(*old(ts)) + local_metric_impl(inner@),
{
    let mut arg = new_stream();
    push_word(&mut arg, Word::SelfValue);
    let mut call = new_stream();
    push_name(&mut call, inner);
    push_path_sep(&mut call);
    push_word(&mut call, Word::Flush);
    push_group(&mut call, Delim::Paren, arg);
    push_alone(&mut call, ';');
    let mut body = new_stream();
    push_word(&mut body, Word::Fn);
    push_word(&mut body, Word::Flush);
    push_self_only(&mut body);
    push_group(&mut body, Delim::Brace, call);
    push_word(ts, Word::Impl);
    push_prometheus_local(ts, Word::LocalMetric);
    push_word(ts, Word::For);
    push_name(ts, inner);
    push_group(ts, Delim::Brace, body);
}

/// Appends the impl that makes the root flush itself when it is due.
fn push_may_flush_impl(ts: &mut TokenStream, inner: &Ident)
    ensures
        stream_lexemes(*final(ts)) == stream_lexemes(*old(ts)) + may_flush_impl(inner@),
{
    let mut args = new_stream();
    push_word(&mut args, Word::SelfValue);
    push_alone(&mut args, ',');
    push_alone(&mut args, '&');
    push_word(&mut args, Word::SelfValue);
    push_alone(&mut args, '.');
    push_word(&mut args, Word::LastFlush);
    push_alone(&mut args, ',');
    push_number(&mut args, FLUSH_INTERVAL);
    push_word(&mut args, Word::As);
    push_word(&mut args, Word::Float);
    let mut call = new_stream();
    push_word(&mut call, Word::MayFlush);
    push_path_sep(&mut call);
    push_word(&mut call, Word::TryFlush);
    push_group(&mut call, Delim::Paren, args);
    let mut body = new_stream();
    push_word(&mut body, Word::Fn);
    push_word(&mut body, Word::MayFlushMethod);
    push_self_only(&mut body);
    push_group(&mut body, Delim::Brace, call);
    push_word(ts, Word::Impl);
    push_prometheus_local(ts, Word::MayFlush);
    push_word(ts, Word::For);
    push_name(ts, inner);
    push_group(ts, Delim::Brace, body);
}

} // verus!
