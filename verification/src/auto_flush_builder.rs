use vstd::prelude::*;
use proc_macro2::TokenStream;
use crate::ast::{
    EnumTable, ItemView, MetricDef, StaticMetricMacroBody, StaticMetricMacroBodyItem,
    Visibility,
};
use crate::delegator::{
    auto_flush_delegator, delegator_impl, delegator_struct, get_counter_fn, get_root_metric_fn,
    offset_fetcher, offset_fetchers,
};
use crate::errors::{BuildError, BuildErrorView};
use crate::ident::Ident;
use crate::inner::{inner_impl, inner_struct, inner_trait_impl};
use crate::label_enum::{label_enum, push_visibility, visibility, TokensBuilder};
use crate::names::{get_offset_name, get_scope_name, inner_name, scope_name};
use crate::offsets::layout_violation;
use crate::outer::{outer_impl, outer_struct};
use crate::plan::{
    plan_counts, plan_error, plan_of, reference_error, MetricBuilderContext, MetricPlan,
    PlanView,
};
use crate::validate::{
    enums_before, first_reference_error, lemma_no_reference_errors, validate,
};
use crate::syntax::{
    allow_attr, concat, name, path_sep, punct, push_allow, push_alone, push_lifetime,
    push_local_key, push_name, push_path_sep, push_self_only, push_thin_arrow,
};
use crate::tokens::{
    append_all, grouped, new_stream, push_group, stream_lexemes, Delim, Lexeme,
};
use crate::words::{push_word, word, Word};

verus! {

/// `use ::a::b::c;`
pub open spec fn use_path(a: Word, b: Word, c: Word) -> Seq<Lexeme> {
    word(Word::Use) + path_sep() + word(a) + path_sep() + word(b) + path_sep() + word(c) + punct(
        ';',
    )
}

/// The imports at the head of the module that encloses what is generated
/// for a metric.
#[verifier::opaque]
pub open spec fn imports() -> Seq<Lexeme> {
    use_path(Word::Std, Word::Collections, Word::HashMap) + (word(Word::Use) + path_sep() + word(
        Word::Prometheus,
    ) + path_sep() + punct('*') + punct(';')) + (word(Word::Use) + path_sep() + word(
        Word::Prometheus,
    ) + path_sep() + word(Word::Local) + path_sep() + punct('*') + punct(';')) + use_path(
        Word::Std,
        Word::CellModule,
        Word::Cell,
    ) + (word(Word::Use) + path_sep() + word(Word::Coarsetime) + path_sep() + word(Word::Instant)
        + punct(';')) + use_path(Word::Std, Word::Thread, Word::LocalKey) + (allow_attr(
        Word::UnusedImports,
    ) + word(Word::Use) + word(Word::Super) + path_sep() + punct('*') + punct(';'))
}

/// What is generated for depth `d`: the storage type with its methods and
/// trait impls, and the accessor type with its methods.
pub open spec fn label_struct(plan: PlanView, d: nat) -> Seq<Lexeme> {
    inner_struct(plan, d) + inner_impl(plan, d) + inner_trait_impl(plan, d) + delegator_struct(
        plan,
        d,
    ) + delegator_impl(plan, d)
}

/// What is generated for the first `k` depths.
pub open spec fn label_structs(plan: PlanView, k: int) -> Seq<Lexeme> {
    concat(k, |d: int| label_struct(plan, d as nat))
}

/// The line that makes `item` of the module `scope` known outside it, as
/// visible as the metric.
pub open spec fn reexport(v: Visibility, scope: Seq<char>, item: Seq<char>) -> Seq<Lexeme> {
    visibility(v) + word(Word::Use) + word(Word::SelfValue) + path_sep() + name(scope)
        + path_sep() + name(item) + punct(';')
}

/// What is generated for one metric: a module of its own, numbered
/// `scope`, that holds the types of every depth and the public handle; and
/// the lines that make the root's storage type and the handle known
/// outside it.
#[verifier::opaque]
pub open spec fn metric_struct(plan: PlanView, scope: nat) -> Seq<Lexeme> {
    reexport(plan.visibility, scope_name(scope), inner_name(plan.struct_name, 0)) + reexport(
        plan.visibility,
        scope_name(scope),
        plan.struct_name,
    ) + allow_attr(Word::DeadCode) + word(Word::Mod) + name(scope_name(scope)) + grouped(
        Delim::Brace,
        imports() + label_structs(plan, plan.labels.len() as int) + auto_flush_delegator(plan)
            + outer_struct(plan) + outer_impl(plan),
    )
}

/// The number of metrics among the first `k` items.
pub open spec fn metrics_before(items: Seq<ItemView>, k: int) -> nat
    decreases k,
{
    if k <= 0 {
        0
    } else {
        match items[k - 1] {
            ItemView::Enum(_) => metrics_before(items, k - 1),
            ItemView::Metric(_) => metrics_before(items, k - 1) + 1,
        }
    }
}

/// What is wrong with the layout of item `k`, if it is a metric and
/// something is.
pub open spec fn item_layout_error(items: Seq<ItemView>, k: int) -> Option<BuildErrorView> {
    match items[k] {
        ItemView::Metric(m) => match layout_violation(
            plan_counts(plan_of(m, enums_before(items, k))),
        ) {
            Some(v) => Some(
                BuildErrorView::LayoutAssumptionViolation { metric_name: m.name, violation: v },
            ),
            None => None,
        },
        ItemView::Enum(_) => None,
    }
}

/// The error of the first metric, at or after item `from`, that has no
/// layout.
pub open spec fn first_layout_error(items: Seq<ItemView>, from: int) -> Option<BuildErrorView>
    decreases items.len() - from,
{
    if from < 0 || from >= items.len() {
        None
    } else {
        match item_layout_error(items, from) {
            Some(e) => Some(e),
            None => first_layout_error(items, from + 1),
        }
    }
}

/// Why nothing is generated for `items`, if nothing is. The stages follow
/// each other: every reference is checked before any scope is numbered, and
/// every scope is numbered before any layout is computed.
pub open spec fn build_error(items: Seq<ItemView>, scope: nat) -> Option<BuildErrorView> {
    match first_reference_error(items, 0) {
        Some(e) => Some(e),
        None => if scope + metrics_before(items, items.len() as int) > usize::MAX {
            Some(BuildErrorView::ScopeExhausted)
        } else {
            first_layout_error(items, 0)
        },
    }
}

/// What is generated for item `k`, where the first metric gets the number
/// `scope` and each further one the next number.
pub open spec fn item_tokens(items: Seq<ItemView>, scope: nat, k: int) -> Seq<Lexeme> {
    match items[k] {
        ItemView::Metric(m) => metric_struct(
            plan_of(m, enums_before(items, k)),
            scope + metrics_before(items, k),
        ),
        ItemView::Enum(e) => label_enum(e),
    }
}

/// What is generated for the first `k` items, in their order.
pub open spec fn generated(items: Seq<ItemView>, scope: nat, k: int) -> Seq<Lexeme> {
    concat(k, |i: int| item_tokens(items, scope, i))
}

/// The count of metrics grows with the number of items looked at.
pub proof fn lemma_metrics_monotone(items: Seq<ItemView>, i: int, j: int)
    requires
        i <= j,
    ensures
        metrics_before(items, i) <= metrics_before(items, j),
    decreases j,
{
    if i < j && j > 0 {
        lemma_metrics_monotone(items, i, j - 1);
    }
}

/// The generation-order counter: the number that the next metric's scope
/// gets. It is handed to the generator, so that two runs that start from
/// the same number generate the same.
#[derive(Clone, Copy, PartialEq, Eq, Structural, Debug)]
pub struct ScopeCounter {
    pub next: usize,
}

impl ScopeCounter {
    /// A counter that starts at 0.
    pub fn new() -> (r: ScopeCounter)
        ensures
            r.next == 0,
    {
        ScopeCounter { next: 0 }
    }
}

/// The contexts of all depths of one plan, in depth order.
pub(crate) open spec fn contexts_for(contexts: Seq<MetricBuilderContext>, plan: PlanView) -> bool {
    &&& contexts.len() == plan.labels.len()
    &&& forall|d: int|
        0 <= d < contexts.len() ==> (#[trigger] contexts[d]).wf() && contexts[d].plan@ == plan
            && contexts[d].label_index == d
}

/// One step of a resolution: from the node of the context's depth to its
/// field at the offset of that depth.
fn build_offset_fetcher(builder_context: &MetricBuilderContext) -> (r: TokenStream)
    requires
        builder_context.wf(),
    ensures
        stream_lexemes(r) == offset_fetcher(
            builder_context.plan@,
            builder_context.label_index as int,
        ),
{
    let struct_var_name = builder_context.inner_struct_name().lowered();
    let member_var_name = builder_context.inner_member_type.lowered();
    let offset = get_offset_name(builder_context.label_index + 1);
    let mut out = new_stream();
    if builder_context.label_index == 0 {
        push_word(&mut out, Word::Let);
        push_name(&mut out, &struct_var_name);
        push_alone(&mut out, '=');
        push_word(&mut out, Word::RootMetric);
        push_alone(&mut out, ';');
    }
    let mut arg = new_stream();
    push_word(&mut arg, Word::SelfValue);
    push_alone(&mut arg, '.');
    push_name(&mut arg, &offset);
    push_word(&mut out, Word::Let);
    push_name(&mut out, &member_var_name);
    push_alone(&mut out, '=');
    push_name(&mut out, &struct_var_name);
    push_alone(&mut out, '.');
    push_word(&mut out, Word::Member);
    push_group(&mut out, Delim::Paren, arg);
    push_alone(&mut out, ';');
    out
}

/// Appends `get_root_metric`.
fn push_get_root_metric_fn(ts: &mut TokenStream, root: &Ident)
    ensures
        stream_lexemes(*final(ts)) == stream_lexemes(*old(ts)) + get_root_metric_fn(root@),
{
    let mut body = new_stream();
    push_word(&mut body, Word::SelfValue);
    push_alone(&mut body, '.');
    push_word(&mut body, Word::Root);
    push_word(ts, Word::Fn);
    push_word(ts, Word::GetRootMetric);
    push_self_only(ts);
    push_thin_arrow(ts);
    push_local_key(ts, root);
    push_group(ts, Delim::Brace, body);
}

/// The emitter of metrics that are kept per thread and flush themselves.
pub struct AutoFlushTokensBuilder;

impl AutoFlushTokensBuilder {
    /// What is generated for the declarations of `macro_body`: an enum for
    /// each `label_enum`, and for each metric a module whose number comes
    /// from `counter`. On an error nothing is generated and the counter
    /// stays as it was.
    pub fn build(macro_body: StaticMetricMacroBody, counter: &mut ScopeCounter) -> (r: Result<
        TokenStream,
        BuildError,
    >)
        ensures
            match build_error(macro_body@, old(counter).next as nat) {
                Some(e) => r matches Err(err) && err@ == e && *final(counter) == *old(counter),
                None => r matches Ok(tokens) && stream_lexemes(tokens) == generated(
                    macro_body@,
                    old(counter).next as nat,
                    macro_body@.len() as int,
                ) && final(counter).next == old(counter).next + metrics_before(
                    macro_body@,
                    macro_body@.len() as int,
                ),
            },
    {
        let ghost items = macro_body@;
        let n = macro_body.items.len();
        match validate(&macro_body) {
            Err(e) => {
                return Err(e);
            },
            Ok(_) => {},
        }
        let start = counter.next;
        let total = count_metrics(&macro_body);
        if total > usize::MAX - start {
            return Err(BuildError::ScopeExhausted);
        }
        proof {
            lemma_no_reference_errors(items, 0);
        }
        let mut enums_definitions = EnumTable::new();
        let mut tokens = new_stream();
        let mut scope_id = start;
        let mut i: usize = 0;
        while i < n
            invariant
                i <= n,
                n == macro_body.items.len(),
                items == macro_body@,
                start + metrics_before(items, n as int) <= usize::MAX,
                scope_id == start + metrics_before(items, i as int),
                enums_definitions@ == enums_before(items, i as int),
                first_layout_error(items, 0) == first_layout_error(items, i as int),
                first_reference_error(items, 0) is None,
                *counter == *old(counter),
                start == counter.next,
                forall|k: int|
                    0 <= k < items.len() ==> (#[trigger] items[k] matches ItemView::Metric(m)
                        ==> reference_error(m, enums_before(items, k), 0) is None),
                stream_lexemes(tokens) == generated(items, start as nat, i as int),
            decreases n - i,
        {
            proof {
                lemma_metrics_monotone(items, i + 1, n as int);
            }
            assert(items[i as int] == macro_body.items@[i as int]@);
            match &macro_body.items[i] {
                StaticMetricMacroBodyItem::Metric(m) => {
                    // If this is a metric definition, expand to a `struct`.
                    match Self::build_metric_struct(m, &enums_definitions, scope_id) {
                        Err(e) => {
                            return Err(e);
                        },
                        Ok(metric_tokens) => {
                            append_all(&mut tokens, metric_tokens);
                        },
                    }
                    scope_id += 1;
                },
                StaticMetricMacroBodyItem::Enum(e) => {
                    // If this is a label enum definition, expand to an `enum` and
                    // add to the collection.
                    append_all(&mut tokens, TokensBuilder::build_label_enum(e));
                    enums_definitions.insert(e);
                },
            }
            i += 1;
        }
        counter.next = scope_id;
        Ok(tokens)
    }

    /// What is generated for one metric, given the enums declared before
    /// it and the number of its scope.
    pub fn build_metric_struct(
        metric: &MetricDef,
        enum_definitions: &EnumTable,
        scope_id: usize,
    ) -> (r: Result<TokenStream, BuildError>)
        ensures
            match plan_error(metric@, enum_definitions@) {
                Some(e) => r matches Err(err) && err@ == e,
                None => r matches Ok(tokens) && stream_lexemes(tokens) == metric_struct(
                    plan_of(metric@, enum_definitions@),
                    scope_id as nat,
                ),
            },
    {
        proof {
            reveal(metric_struct);
        }
        // Check `label_enum` references, and lay the labels out.
        let plan = match MetricPlan::new(metric, enum_definitions) {
            Err(e) => {
                return Err(e);
            },
            Ok(plan) => plan,
        };
        let n = plan.depth();
        let mut builder_contexts: Vec<MetricBuilderContext> = Vec::new();
        let mut i: usize = 0;
        while i < n
            invariant
                i <= n,
                n == plan@.labels.len(),
                plan.wf(),
                builder_contexts.len() == i,
                forall|d: int|
                    0 <= d < i ==> (#[trigger] builder_contexts@[d]).wf()
                        && builder_contexts@[d].plan@ == plan@ && builder_contexts@[d].label_index
                        == d,
            decreases n - i,
        {
            builder_contexts.push(MetricBuilderContext::new(&plan, i));
            i += 1;
        }
        let mut body = new_stream();
        push_imports(&mut body);
        let ghost before = stream_lexemes(body);
        let mut i: usize = 0;
        while i < n
            invariant
                i <= n,
                n == plan@.labels.len(),
                contexts_for(builder_contexts@, plan@),
                stream_lexemes(body) == before + label_structs(plan@, i as int),
            decreases n - i,
        {
            let builder_context = &builder_contexts[i];
            let inner_struct = builder_context.build_inner_struct();
            let inner_impl = builder_context.build_inner_impl();
            let inner_trait_impl = builder_context.build_inner_trait_impl();
            let delegator_struct = builder_context.build_delegator_struct();
            let delegator_impl = builder_context.build_delegator_impl();
            append_all(&mut body, inner_struct);
            append_all(&mut body, inner_impl);
            append_all(&mut body, inner_trait_impl);
            append_all(&mut body, delegator_struct);
            append_all(&mut body, delegator_impl);
            i += 1;
        }
        let auto_flush_delegator = Self::build_auto_flush_delegator(&builder_contexts);
        let outer_struct = Self::build_outer_struct(&builder_contexts);
        let outer_impl = Self::build_outer_impl(&builder_contexts);
        append_all(&mut body, auto_flush_delegator);
        append_all(&mut body, outer_struct);
        append_all(&mut body, outer_impl);
        let scope_name = get_scope_name(scope_id);
        let inner_struct_name = builder_contexts[0].inner_struct_name();

        let mut out = new_stream();
        push_reexport(&mut out, metric.visibility, &scope_name, &inner_struct_name);
        push_reexport(&mut out, metric.visibility, &scope_name, &metric.struct_name);
        push_allow(&mut out, Word::DeadCode);
        push_word(&mut out, Word::Mod);
        push_name(&mut out, &scope_name);
        push_group(&mut out, Delim::Brace, body);
        Ok(out)
    }

    /// The leaf accessor as a delegator: how it finds, in a thread's root,
    /// the leaf that it stands for.
    pub(crate) fn build_auto_flush_delegator(builder_contexts: &Vec<MetricBuilderContext>) -> (r:
        TokenStream)
        requires
            builder_contexts@.len() > 0,
            contexts_for(builder_contexts@, builder_contexts@[0].plan@),
        ensures
            stream_lexemes(r) == auto_flush_delegator(builder_contexts@[0].plan@),
    {
        proof {
            reveal(auto_flush_delegator);
        }
        let ghost plan = builder_contexts@[0].plan@;
        let n = builder_contexts.len();
        let first = &builder_contexts[0];
        let last = &builder_contexts[n - 1];
        let inner_struct = first.inner_struct_name();
        let last_delegator = last.delegator_struct_name();
        let metric_type = &first.plan.metric.metric_type;

        let mut fetchers = new_stream();
        let mut i: usize = 0;
        while i < n
            invariant
                i <= n,
                n == builder_contexts@.len(),
                contexts_for(builder_contexts@, plan),
                stream_lexemes(fetchers) == offset_fetchers(plan, i as int),
            decreases n - i,
        {
            append_all(&mut fetchers, build_offset_fetcher(&builder_contexts[i]));
            i += 1;
        }
        push_name(&mut fetchers, &last.inner_member_type.lowered());

        let mut params = new_stream();
        push_alone(&mut params, '&');
        push_word(&mut params, Word::SelfValue);
        push_alone(&mut params, ',');
        push_word(&mut params, Word::RootMetric);
        push_alone(&mut params, ':');
        push_alone(&mut params, '&');
        push_lifetime(&mut params, Word::A);
        push_name(&mut params, &inner_struct);

        let mut body = new_stream();
        push_get_root_metric_fn(&mut body, &inner_struct);
        push_word(&mut body, Word::Fn);
        push_word(&mut body, Word::GetCounter);
        push_alone(&mut body, '<');
        push_lifetime(&mut body, Word::A);
        push_alone(&mut body, '>');
        push_group(&mut body, Delim::Paren, params);
        push_thin_arrow(&mut body);
        push_alone(&mut body, '&');
        push_lifetime(&mut body, Word::A);
        push_name(&mut body, metric_type);
        push_group(&mut body, Delim::Brace, fetchers);
        assert(stream_lexemes(body) == get_root_metric_fn(inner_struct@) + get_counter_fn(plan));

        let mut out = new_stream();
        push_word(&mut out, Word::Impl);
        push_word(&mut out, Word::Delegator);
        push_alone(&mut out, '<');
        push_name(&mut out, &inner_struct);
        push_alone(&mut out, ',');
        push_name(&mut out, metric_type);
        push_alone(&mut out, '>');
        push_word(&mut out, Word::For);
        push_name(&mut out, &last_delegator);
        push_group(&mut out, Delim::Brace, body);
        out
    }

    /// The public handle of the metric.
    pub(crate) fn build_outer_struct(builder_contexts: &Vec<MetricBuilderContext>) -> (r: TokenStream)
        requires
            builder_contexts@.len() > 0,
            contexts_for(builder_contexts@, builder_contexts@[0].plan@),
        ensures
            stream_lexemes(r) == outer_struct(builder_contexts@[0].plan@),
    {
        builder_contexts[0].build_outer_struct()
    }

    /// The methods of the public handle of the metric.
    pub(crate) fn build_outer_impl(builder_contexts: &Vec<MetricBuilderContext>) -> (r: TokenStream)
        requires
            builder_contexts@.len() > 0,
            contexts_for(builder_contexts@, builder_contexts@[0].plan@),
        ensures
            stream_lexemes(r) == outer_impl(builder_contexts@[0].plan@),
    {
        builder_contexts[0].build_outer_impl()
    }
}

/// The number of metrics that `macro_body` declares.
pub fn count_metrics(macro_body: &StaticMetricMacroBody) -> (r: usize)
    ensures
        r == metrics_before(macro_body@, macro_body@.len() as int),
{
    let ghost items = macro_body@;
    let n = macro_body.items.len();
    let mut count: usize = 0;
    let mut i: usize = 0;
    while i < n
        invariant
            i <= n,
            n == macro_body.items.len(),
            items == macro_body@,
            count == metrics_before(items, i as int),
            count <= i,
        decreases n - i,
    {
        assert(items[i as int] == macro_body.items@[i as int]@);
        match &macro_body.items[i] {
            StaticMetricMacroBodyItem::Metric(_) => {
                count += 1;
            },
            StaticMetricMacroBodyItem::Enum(_) => {},
        }
        i += 1;
    }
    count
}

/// Appends `use ::a::b::c;`.
fn push_use_path(ts: &mut TokenStream, a: Word, b: Word, c: Word)
    ensures
        stream_lexemes(*final(ts)) == stream_lexemes(*old(ts)) + use_path(a, b, c),
{
    push_word(ts, Word::Use);
    push_path_sep(ts);
    push_word(ts, a);
    push_path_sep(ts);
    push_word(ts, b);
    push_path_sep(ts);
    push_word(ts, c);
    push_alone(ts, ';');
}

/// Appends the imports at the head of a metric's module.
fn push_imports(ts: &mut TokenStream)
    ensures
        stream_lexemes(*final(ts)) == stream_lexemes(*old(ts)) + imports(),
{
    proof {
        reveal(imports);
    }
    let mut out = new_stream();
    push_use_path(&mut out, Word::Std, Word::Collections, Word::HashMap);
    let mut line = new_stream();
    push_word(&mut line, Word::Use);
    push_path_sep(&mut line);
    push_word(&mut line, Word::Prometheus);
    push_path_sep(&mut line);
    push_alone(&mut line, '*');
    push_alone(&mut line, ';');
    append_all(&mut out, line);
    let mut line = new_stream();
    push_word(&mut line, Word::Use);
    push_path_sep(&mut line);
    push_word(&mut line, Word::Prometheus);
    push_path_sep(&mut line);
    push_word(&mut line, Word::Local);
    push_path_sep(&mut line);
    push_alone(&mut line, '*');
    push_alone(&mut line, ';');
    append_all(&mut out, line);
    push_use_path(&mut out, Word::Std, Word::CellModule, Word::Cell);
    let mut line = new_stream();
    push_word(&mut line, Word::Use);
    push_path_sep(&mut line);
    push_word(&mut line, Word::Coarsetime);
    push_path_sep(&mut line);
    push_word(&mut line, Word::Instant);
    push_alone(&mut line, ';');
    append_all(&mut out, line);
    push_use_path(&mut out, Word::Std, Word::Thread, Word::LocalKey);
    let mut line = new_stream();
    push_allow(&mut line, Word::UnusedImports);
    push_word(&mut line, Word::Use);
    push_word(&mut line, Word::Super);
    push_path_sep(&mut line);
    push_alone(&mut line, '*');
    push_alone(&mut line, ';');
    append_all(&mut out, line);
    append_all(ts, out);
}

/// Appends the line that makes `item` of the module `scope_name` known outside
/// it.
fn push_reexport(ts: &mut TokenStream, v: Visibility, scope_name: &Ident, item: &Ident)
    ensures
        stream_lexemes(*final(ts)) == stream_lexemes(*old(ts)) + reexport(
            v,
            scope_name@,
            item@,
        ),
{
    push_visibility(ts, v);
    push_word(ts, Word::Use);
    push_word(ts, Word::SelfValue);
    push_path_sep(ts);
    push_name(ts, scope_name);
    push_path_sep(ts);
    push_name(ts, item);
    push_alone(ts, ';');
}

} // verus!
