use vstd::prelude::*;
use crate::ast::{
    lookup_enum, EnumDefView, EnumTable, ItemView, LabelArmView, StaticMetricMacroBody,
    StaticMetricMacroBodyItem, Visibility,
};
use crate::errors::{BuildError, BuildErrorView};
use crate::plan::{check_references, label_error, reference_error};

verus! {

/// The `label_enum`s among the first `k` items, in their order.
pub open spec fn enums_before(items: Seq<ItemView>, k: int) -> Seq<EnumDefView>
    decreases k,
{
    if k <= 0 {
        Seq::empty()
    } else {
        match items[k - 1] {
            ItemView::Enum(e) => enums_before(items, k - 1).push(e),
            ItemView::Metric(_) => enums_before(items, k - 1),
        }
    }
}

/// What is wrong with the references of item `k`, if it is a metric and
/// something is. A metric sees the enums declared before it.
pub open spec fn item_reference_error(items: Seq<ItemView>, k: int) -> Option<BuildErrorView> {
    match items[k] {
        ItemView::Metric(m) => reference_error(m, enums_before(items, k), 0),
        ItemView::Enum(_) => None,
    }
}

/// The error of the first reference to a `label_enum`, at or after item
/// `from`, that is not in order.
pub open spec fn first_reference_error(items: Seq<ItemView>, from: int) -> Option<BuildErrorView>
    decreases items.len() - from,
{
    if from < 0 || from >= items.len() {
        None
    } else {
        match item_reference_error(items, from) {
            Some(e) => Some(e),
            None => first_reference_error(items, from + 1),
        }
    }
}

/// Where no reference from item `from` on is out of order, none is.
pub proof fn lemma_no_reference_errors(items: Seq<ItemView>, from: int)
    requires
        0 <= from,
        first_reference_error(items, from) is None,
    ensures
        forall|k: int|
            from <= k < items.len() ==> (#[trigger] items[k] matches ItemView::Metric(m)
                ==> reference_error(m, enums_before(items, k), 0) is None),
    decreases items.len() - from,
{
    if from < items.len() {
        lemma_no_reference_errors(items, from + 1);
    }
}

/// Checks every reference to a `label_enum`, in the order of the input:
/// each must be declared before the metric that names it, and must be `pub`
/// if the metric is.
pub fn validate(macro_body: &StaticMetricMacroBody) -> (r: Result<(), BuildError>)
    ensures
        match first_reference_error(macro_body@, 0) {
            Some(e) => r matches Err(err) && err@ == e,
            None => r is Ok,
        },
{
    let ghost items = macro_body@;
    let n = macro_body.items.len();
    let mut enums_definitions = EnumTable::new();
    let mut i: usize = 0;
    while i < n
        invariant
            i <= n,
            n == macro_body.items.len(),
            items == macro_body@,
            enums_definitions@ == enums_before(items, i as int),
            first_reference_error(items, 0) == first_reference_error(items, i as int),
        decreases n - i,
    {
        assert(items[i as int] == macro_body.items@[i as int]@);
        match &macro_body.items[i] {
            StaticMetricMacroBodyItem::Metric(m) => {
                match check_references(m, &enums_definitions) {
                    Err(e) => {
                        return Err(e);
                    },
                    Ok(_) => {},
                }
            },
            StaticMetricMacroBodyItem::Enum(e) => {
                enums_definitions.insert(e);
            },
        }
        i += 1;
    }
    Ok(())
}


/// Label `d` of item `k` is a reference to the `label_enum` named `name`.
pub open spec fn refers_to(items: Seq<ItemView>, k: int, d: int, name: Seq<char>) -> bool {
    &&& 0 <= k < items.len()
    &&& items[k] matches ItemView::Metric(m) && 0 <= d < m.labels.len() && m.labels[d].arm
        == LabelArmView::Enum(name)
}

/// No reference before label `d` of item `k` is out of order.
pub open spec fn in_order_before(items: Seq<ItemView>, k: int, d: int) -> bool {
    &&& forall|j: int| 0 <= j < k ==> (#[trigger] item_reference_error(items, j)) is None
    &&& items[k] matches ItemView::Metric(m) && forall|c: int|
        0 <= c < d ==> label_error(m, #[trigger] m.labels[c], enums_before(items, k)) is None
}

/// The first error among the labels of a metric from `from` on is the one
/// of label `d`, where no label between has one.
pub proof fn lemma_reference_error_at(
    metric: crate::ast::MetricDefView,
    enums: Seq<EnumDefView>,
    from: int,
    d: int,
)
    requires
        0 <= from <= d < metric.labels.len(),
        forall|c: int| from <= c < d ==> label_error(metric, #[trigger] metric.labels[c], enums)
            is None,
    ensures
        label_error(metric, metric.labels[d], enums) is Some ==> reference_error(
            metric,
            enums,
            from,
        ) == label_error(metric, metric.labels[d], enums),
    decreases d - from,
{
    if from < d {
        lemma_reference_error_at(metric, enums, from + 1, d);
    }
}

/// A label with an error makes the references of its metric fail.
pub proof fn lemma_reference_error_exists(
    metric: crate::ast::MetricDefView,
    enums: Seq<EnumDefView>,
    from: int,
    d: int,
)
    requires
        0 <= from <= d < metric.labels.len(),
        label_error(metric, metric.labels[d], enums) is Some,
    ensures
        reference_error(metric, enums, from) is Some,
    decreases d - from,
{
    if from < d {
        lemma_reference_error_exists(metric, enums, from + 1, d);
    }
}

/// The first error from item `from` on is the one of item `k`, where no
/// item between has one.
pub proof fn lemma_first_reference_error_at(items: Seq<ItemView>, from: int, k: int)
    requires
        0 <= from <= k < items.len(),
        forall|j: int| from <= j < k ==> (#[trigger] item_reference_error(items, j)) is None,
    ensures
        item_reference_error(items, k) is Some ==> first_reference_error(items, from)
            == item_reference_error(items, k),
    decreases k - from,
{
    if from < k {
        assert(item_reference_error(items, from) is None);
        lemma_first_reference_error_at(items, from + 1, k);
    }
}

/// An item with an error makes the validation fail.
pub proof fn lemma_first_reference_error_exists(items: Seq<ItemView>, from: int, k: int)
    requires
        0 <= from <= k < items.len(),
        item_reference_error(items, k) is Some,
    ensures
        first_reference_error(items, from) is Some,
    decreases k - from,
{
    if from < k {
        lemma_first_reference_error_exists(items, from + 1, k);
    }
}

/// Referencing an enum before its declaration fails: if a label of a
/// metric names a `label_enum` that no item before the metric declares,
/// validation fails; and where no reference before that one is out of
/// order, it fails with `UndefinedEnumError` for that name.
pub proof fn lemma_undeclared_enum_fails(items: Seq<ItemView>, k: int, d: int, name: Seq<char>)
    requires
        refers_to(items, k, d, name),
        lookup_enum(enums_before(items, k), name) is None,
    ensures
        first_reference_error(items, 0) is Some,
        in_order_before(items, k, d) ==> first_reference_error(items, 0) == Some(
            BuildErrorView::UndefinedEnumError { enum_name: name },
        ),
{
    let m = items[k]->Metric_0;
    let enums = enums_before(items, k);
    lemma_reference_error_exists(m, enums, 0, d);
    lemma_first_reference_error_exists(items, 0, k);
    if in_order_before(items, k, d) {
        lemma_reference_error_at(m, enums, 0, d);
        lemma_first_reference_error_at(items, 0, k);
    }
}

/// A public metric against a private enum fails: if a label of a `pub`
/// metric names a `label_enum` whose declaration before the metric is not
/// `pub`, validation fails; and where no reference before that one is out
/// of order, it fails with `VisibilityError` for that enum and that metric.
pub proof fn lemma_private_enum_fails(items: Seq<ItemView>, k: int, d: int, name: Seq<char>)
    requires
        refers_to(items, k, d, name),
        items[k]->Metric_0.visibility == Visibility::Public,
        lookup_enum(enums_before(items, k), name) matches Some(e) && e.visibility
            != Visibility::Public,
    ensures
        first_reference_error(items, 0) is Some,
        in_order_before(items, k, d) ==> first_reference_error(items, 0) == Some(
            BuildErrorView::VisibilityError {
                enum_name: name,
                metric_name: items[k]->Metric_0.name,
            },
        ),
{
    let m = items[k]->Metric_0;
    let enums = enums_before(items, k);
    lemma_reference_error_exists(m, enums, 0, d);
    lemma_first_reference_error_exists(items, 0, k);
    if in_order_before(items, k, d) {
        lemma_reference_error_at(m, enums, 0, d);
        lemma_first_reference_error_at(items, 0, k);
    }
}

/// Every reference is to a `label_enum` that is declared before the metric
/// and that is `pub` where the metric is.
pub open spec fn references_in_order(items: Seq<ItemView>) -> bool {
    forall|k: int, d: int, name: Seq<char>| #[trigger]
        refers_to(items, k, d, name) ==> (lookup_enum(enums_before(items, k), name) matches Some(
            e,
        ) && (items[k]->Metric_0.visibility == Visibility::Public ==> e.visibility
            == Visibility::Public))
}

/// No error among the labels of a metric from `from` on, where each has
/// none.
pub proof fn lemma_reference_error_none(
    metric: crate::ast::MetricDefView,
    enums: Seq<EnumDefView>,
    from: int,
)
    requires
        0 <= from,
        forall|c: int|
            from <= c < metric.labels.len() ==> label_error(
                metric,
                #[trigger] metric.labels[c],
                enums,
            ) is None,
    ensures
        reference_error(metric, enums, from) is None,
    decreases metric.labels.len() - from,
{
    if from < metric.labels.len() {
        lemma_reference_error_none(metric, enums, from + 1);
    }
}

/// No error from item `from` on, where each item has none.
pub proof fn lemma_first_reference_error_none(items: Seq<ItemView>, from: int)
    requires
        0 <= from,
        forall|j: int| from <= j < items.len() ==> (#[trigger] item_reference_error(items, j))
            is None,
    ensures
        first_reference_error(items, from) is None,
    decreases items.len() - from,
{
    if from < items.len() {
        assert(item_reference_error(items, from) is None);
        lemma_first_reference_error_none(items, from + 1);
    }
}

/// Validation succeeds exactly on the inputs whose references are in
/// order. So a public metric against a public enum that is declared before
/// it is accepted, and so is a private metric against any enum declared
/// before it.
pub proof fn lemma_validation_succeeds_iff(items: Seq<ItemView>)
    ensures
        first_reference_error(items, 0) is None <==> references_in_order(items),
{
    if references_in_order(items) {
        assert forall|j: int| 0 <= j < items.len() implies (#[trigger] item_reference_error(
            items,
            j,
        )) is None by {
            if let ItemView::Metric(m) = items[j] {
                let enums = enums_before(items, j);
                assert forall|c: int| 0 <= c < m.labels.len() implies label_error(
                    m,
                    #[trigger] m.labels[c],
                    enums,
                ) is None by {
                    if let LabelArmView::Enum(name) = m.labels[c].arm {
                        assert(refers_to(items, j, c, name));
                    }
                }
                lemma_reference_error_none(m, enums, 0);
            }
        }
        lemma_first_reference_error_none(items, 0);
    }
    if first_reference_error(items, 0) is None {
        lemma_no_reference_errors(items, 0);
        assert forall|k: int, d: int, name: Seq<char>| #[trigger]
            refers_to(items, k, d, name) implies (lookup_enum(enums_before(items, k), name)
            matches Some(e) && (items[k]->Metric_0.visibility == Visibility::Public
            ==> e.visibility == Visibility::Public)) by {
            let m = items[k]->Metric_0;
            crate::plan::lemma_no_reference_error(m, enums_before(items, k), 0);
            assert(label_error(m, m.labels[d], enums_before(items, k)) is None);
        }
    }
}

} // verus!
