use vstd::prelude::*;
use crate::ast::{
    label_values, lookup_enum, values_view, EnumDefView, EnumTable, LabelArmView, LabelDefView,
    MetricDef, MetricDefView, MetricValueDef, ValueDefView, Visibility,
};
use crate::errors::{BuildError, BuildErrorView};
use crate::ident::Ident;
use crate::names::{
    delegator_member_type, delegator_name, get_delegator_member_type, get_delegator_struct_name,
    get_inner_member_type, get_inner_struct_name, get_label_struct_name, inner_member_type,
    inner_name, label_struct_name,
};
use crate::accessor::{field_index, find_field};
use crate::offsets::{layout_violation, valid_path, OffsetTable};

verus! {

/// One label with its values looked up.
pub struct LabelPlanView {
    pub key: Seq<char>,
    pub values: Seq<ValueDefView>,
    /// The `label_enum` that the values come from, if they come from one.
    pub enum_name: Option<Seq<char>>,
}

/// A metric with the values of every label looked up: all that the
/// generated code depends on.
pub struct PlanView {
    pub visibility: Visibility,
    pub struct_name: Seq<char>,
    pub metric_type: Seq<char>,
    pub labels: Seq<LabelPlanView>,
}

/// The `label_enum` that a label names, if it names one.
pub open spec fn enum_of(label: LabelDefView) -> Option<Seq<char>> {
    match label.arm {
        LabelArmView::Values(_) => None,
        LabelArmView::Enum(name) => Some(name),
    }
}

/// A label with its values looked up among `enums` (none, where it names
/// an enum that is not among them).
pub open spec fn plan_label(label: LabelDefView, enums: Seq<EnumDefView>) -> LabelPlanView {
    LabelPlanView {
        key: label.key,
        values: match label_values(label, enums) {
            Some(values) => values,
            None => Seq::empty(),
        },
        enum_name: enum_of(label),
    }
}

/// A metric with its labels looked up among `enums`.
pub open spec fn plan_of(metric: MetricDefView, enums: Seq<EnumDefView>) -> PlanView {
    PlanView {
        visibility: metric.visibility,
        struct_name: metric.name,
        metric_type: metric.metric_type,
        labels: Seq::new(metric.labels.len(), |d: int| plan_label(metric.labels[d], enums)),
    }
}

/// The number of values at each depth.
pub open spec fn plan_counts(plan: PlanView) -> Seq<usize> {
    Seq::new(plan.labels.len(), |d: int| plan.labels[d].values.len() as usize)
}

/// What is wrong with one label of `metric`, given the enums declared
/// before the metric: it names an enum that is not declared, or the metric
/// is `pub` and the enum is not.
pub open spec fn label_error(metric: MetricDefView, label: LabelDefView, enums: Seq<EnumDefView>)
    -> Option<BuildErrorView> {
    match label.arm {
        LabelArmView::Values(_) => None,
        LabelArmView::Enum(name) => match lookup_enum(enums, name) {
            None => Some(BuildErrorView::UndefinedEnumError { enum_name: name }),
            Some(e) => if metric.visibility == Visibility::Public && e.visibility
                != Visibility::Public {
                Some(BuildErrorView::VisibilityError { enum_name: name, metric_name: metric.name })
            } else {
                None
            },
        },
    }
}

/// The error of the first label at or after depth `from` that has one.
pub open spec fn reference_error(metric: MetricDefView, enums: Seq<EnumDefView>, from: int)
    -> Option<BuildErrorView>
    decreases metric.labels.len() - from,
{
    if from < 0 || from >= metric.labels.len() {
        None
    } else {
        match label_error(metric, metric.labels[from], enums) {
            Some(e) => Some(e),
            None => reference_error(metric, enums, from + 1),
        }
    }
}

/// Why `metric` cannot be planned, if it cannot: the first error of a
/// label, or else what is wrong with the layout.
pub open spec fn plan_error(metric: MetricDefView, enums: Seq<EnumDefView>) -> Option<
    BuildErrorView,
> {
    match reference_error(metric, enums, 0) {
        Some(e) => Some(e),
        None => match layout_violation(plan_counts(plan_of(metric, enums))) {
            Some(v) => Some(
                BuildErrorView::LayoutAssumptionViolation { metric_name: metric.name, violation: v },
            ),
            None => None,
        },
    }
}

/// One label of a metric with its values looked up.
pub struct ResolvedLabel<'a> {
    pub key: &'a String,
    pub values: &'a Vec<MetricValueDef>,
    pub enum_name: Option<&'a Ident>,
}

impl<'a> View for ResolvedLabel<'a> {
    type V = LabelPlanView;

    open spec fn view(&self) -> LabelPlanView {
        LabelPlanView {
            key: self.key@,
            values: values_view(self.values@),
            enum_name: match self.enum_name {
                Some(name) => Some(name@),
                None => None,
            },
        }
    }
}

/// A metric whose labels are looked up and laid out.
pub struct MetricPlan<'a> {
    pub metric: &'a MetricDef,
    pub labels: Vec<ResolvedLabel<'a>>,
    pub offsets: OffsetTable,
}

impl<'a> View for MetricPlan<'a> {
    type V = PlanView;

    open spec fn view(&self) -> PlanView {
        PlanView {
            visibility: self.metric.visibility,
            struct_name: self.metric.struct_name@,
            metric_type: self.metric.metric_type@,
            labels: Seq::new(self.labels@.len(), |d: int| self.labels@[d]@),
        }
    }
}

/// Where no label from `from` on has an error, no label has one, and the
/// values of each are found.
pub proof fn lemma_no_reference_error(metric: MetricDefView, enums: Seq<EnumDefView>, from: int)
    requires
        0 <= from,
        reference_error(metric, enums, from) is None,
    ensures
        forall|d: int|
            from <= d < metric.labels.len() ==> label_error(
                metric,
                #[trigger] metric.labels[d],
                enums,
            ) is None && label_values(metric.labels[d], enums) is Some,
    decreases metric.labels.len() - from,
{
    if from < metric.labels.len() {
        lemma_no_reference_error(metric, enums, from + 1);
    }
}

/// Checks the references of `metric` to `label_enum`s, given those declared
/// before it: each must be declared, and must be `pub` if the metric is.
pub fn check_references(metric: &MetricDef, enums: &EnumTable) -> (r: Result<(), BuildError>)
    ensures
        match reference_error(metric@, enums@, 0) {
            Some(e) => r matches Err(err) && err@ == e,
            None => r is Ok,
        },
{
    let n = metric.labels.len();
    let mut i: usize = 0;
    while i < n
        invariant
            i <= n,
            n == metric.labels.len(),
            reference_error(metric@, enums@, 0) == reference_error(metric@, enums@, i as int),
        decreases n - i,
    {
        let label = &metric.labels[i];
        assert(metric@.labels[i as int] == label@);
        // If metric is using a `label_enum`, it must exist before the metric definition.
        if let Some(e) = label.get_enum_ident() {
            match enums.get(e) {
                None => {
                    return Err(
                        BuildError::UndefinedEnumError { enum_name: String::from_str(e.as_str()) },
                    );
                },
                Some(enum_def) => {
                    // If metric has `pub` visibility, then `label_enum` should also be `pub`.
                    if metric.visibility == Visibility::Public && enum_def.visibility
                        != Visibility::Public {
                        return Err(
                            BuildError::VisibilityError {
                                enum_name: String::from_str(e.as_str()),
                                metric_name: String::from_str(metric.struct_name.as_str()),
                            },
                        );
                    }
                },
            }
        }
        i += 1;
    }
    Ok(())
}

impl<'a> MetricPlan<'a> {
    /// The offsets are those of the labels, which have a layout.
    pub open spec fn wf(&self) -> bool {
        &&& self.offsets@ == plan_counts(self@)
        &&& layout_violation(plan_counts(self@)) is None
    }

    /// Looks up and lays out the labels of `metric`, given the enums
    /// declared before it.
    pub fn new(metric: &'a MetricDef, enums: &EnumTable<'a>) -> (r: Result<
        MetricPlan<'a>,
        BuildError,
    >)
        ensures
            match plan_error(metric@, enums@) {
                Some(e) => r matches Err(err) && err@ == e,
                None => r matches Ok(p) && p.wf() && p@ == plan_of(metric@, enums@) && p.metric
                    == metric,
            },
    {
        match check_references(metric, enums) {
            Err(e) => {
                return Err(e);
            },
            Ok(_) => {},
        }
        proof {
            lemma_no_reference_error(metric@, enums@, 0);
        }
        let n = metric.labels.len();
        let mut labels: Vec<ResolvedLabel<'a>> = Vec::new();
        let mut counts: Vec<usize> = Vec::new();
        let mut i: usize = 0;
        while i < n
            invariant
                i <= n,
                n == metric.labels.len(),
                labels.len() == i,
                counts.len() == i,
                forall|d: int|
                    0 <= d < n ==> label_values(#[trigger] metric@.labels[d], enums@) is Some,
                forall|d: int|
                    0 <= d < i ==> #[trigger] labels@[d]@ == plan_label(metric@.labels[d], enums@),
                forall|d: int| 0 <= d < i ==> #[trigger] counts@[d] == labels@[d]@.values.len(),
            decreases n - i,
        {
            let label = &metric.labels[i];
            assert(metric@.labels[i as int] == label@);
            let values = label.get_value_def_list(enums).unwrap();
            labels.push(
                ResolvedLabel { key: &label.label_key, values, enum_name: label.get_enum_ident() },
            );
            counts.push(values.len());
            i += 1;
        }
        let ghost planned = plan_of(metric@, enums@);
        let ghost view = (PlanView {
            visibility: metric.visibility,
            struct_name: metric.struct_name@,
            metric_type: metric.metric_type@,
            labels: Seq::new(labels@.len(), |d: int| labels@[d]@),
        });
        assert(view.labels =~= planned.labels);
        assert(counts@ =~= plan_counts(planned));
        match OffsetTable::new(counts) {
            Err(violation) => Err(
                BuildError::LayoutAssumptionViolation {
                    metric_name: String::from_str(metric.struct_name.as_str()),
                    violation,
                },
            ),
            Ok(offsets) => Ok(MetricPlan { metric, labels, offsets }),
        }
    }

    /// The number of values at every depth.
    pub fn counts(&self) -> (r: Vec<usize>)
        ensures
            r@ == plan_counts(self@),
    {
        let mut counts: Vec<usize> = Vec::new();
        let mut i: usize = 0;
        while i < self.labels.len()
            invariant
                i <= self.labels.len(),
                counts@.len() == i,
                forall|d: int| 0 <= d < i ==> #[trigger] counts@[d] == self@.labels[d].values.len(),
            decreases self.labels.len() - i,
        {
            counts.push(self.labels[i].values.len());
            i += 1;
        }
        assert(counts@ =~= plan_counts(self@));
        counts
    }

    /// The places of the fields that `names` name, one at each depth; none
    /// if there are more or fewer names than depths, or if a depth has no
    /// field of the name given for it.
    pub fn path_of(&self, names: &Vec<String>) -> (r: Option<Vec<usize>>)
        ensures
            match r {
                Some(path) => {
                    &&& path@.len() == self@.labels.len()
                    &&& names@.len() == self@.labels.len()
                    &&& forall|d: int|
                        0 <= d < path@.len() ==> field_index(
                            self@.labels[d].values,
                            names@[d]@,
                            0,
                        ) == Some(#[trigger] path@[d] as int)
                    &&& valid_path(plan_counts(self@), path@)
                },
                None => names@.len() != self@.labels.len() || exists|d: int|
                    0 <= d < names@.len() && field_index(
                        #[trigger] self@.labels[d].values,
                        names@[d]@,
                        0,
                    ) is None,
            },
    {
        if names.len() != self.labels.len() {
            return None;
        }
        let mut path: Vec<usize> = Vec::new();
        let mut i: usize = 0;
        while i < names.len()
            invariant
                i <= names.len(),
                names.len() == self.labels.len(),
                path@.len() == i,
                forall|d: int|
                    0 <= d < i ==> field_index(self@.labels[d].values, names@[d]@, 0) == Some(
                        #[trigger] path@[d] as int,
                    ) && path@[d] < self@.labels[d].values.len() <= usize::MAX,
            decreases names.len() - i,
        {
            assert(self@.labels[i as int].values == values_view(self.labels@[i as int].values@));
            match find_field(self.labels[i].values, names[i].as_str()) {
                None => {
                    assert(field_index(self@.labels[i as int].values, names@[i as int]@, 0)
                        is None);
                    return None;
                },
                Some(index) => {
                    let ghost before = path@;
                    path.push(index);
                    assert forall|d: int| 0 <= d <= i implies field_index(
                        self@.labels[d].values,
                        names@[d]@,
                        0,
                    ) == Some(#[trigger] path@[d] as int) && path@[d] < self@.labels[d].values.len()
                        <= usize::MAX by {
                        if d < i {
                            assert(path@[d] == before[d]);
                        }
                    }
                },
            }
            i += 1;
        }
        assert forall|d: int| 0 <= d < path@.len() implies #[trigger] path@[d] < plan_counts(
            self@,
        )[d] by {
            assert(path@[d] < self@.labels[d].values.len());
        }
        Some(path)
    }

    /// The number of label depths.
    pub fn depth(&self) -> (r: usize)
        ensures
            r == self@.labels.len(),
            self.wf() ==> 0 < r,
    {
        self.labels.len()
    }
}

/// The names and flags that the generated code of one depth depends on.
pub(crate) struct MetricBuilderContext<'a> {
    pub plan: &'a MetricPlan<'a>,
    pub label_index: usize,
    pub is_last_label: bool,
    pub struct_name: Ident,
    pub delegator_member_type: Ident,
    pub inner_member_type: Ident,
}

impl<'a> MetricBuilderContext<'a> {
    /// The depth that the context is for.
    pub(crate) open spec fn depth(&self) -> nat {
        self.label_index as nat
    }

    /// The context belongs to a depth of its plan, and its names and flags
    /// are the ones derived for that depth.
    pub(crate) open spec fn wf(&self) -> bool {
        let plan = self.plan@;
        let d = self.label_index as nat;
        &&& self.plan.wf()
        &&& self.label_index < plan.labels.len() <= usize::MAX
        &&& self.is_last_label == (self.label_index == plan.labels.len() - 1)
        &&& self.struct_name@ == label_struct_name(plan.struct_name, d)
        &&& self.delegator_member_type@ == delegator_member_type(
            plan.struct_name,
            d,
            self.is_last_label,
        )
        &&& self.inner_member_type@ == inner_member_type(
            plan.struct_name,
            d,
            plan.metric_type,
            self.is_last_label,
        )
    }

    /// The context of depth `label_index` of `plan`.
    pub(crate) fn new(plan: &'a MetricPlan<'a>, label_index: usize) -> (r: MetricBuilderContext<'a>)
        requires
            plan.wf(),
            label_index < plan@.labels.len(),
        ensures
            r.wf(),
            r.plan == plan,
            r.label_index == label_index,
    {
        let n = plan.depth();
        let metric = plan.metric;
        let is_last_label = label_index == n - 1;
        MetricBuilderContext {
            plan,
            label_index,
            is_last_label,
            struct_name: get_label_struct_name(&metric.struct_name, label_index),
            delegator_member_type: get_delegator_member_type(
                &metric.struct_name,
                label_index,
                is_last_label,
            ),
            inner_member_type: get_inner_member_type(
                &metric.struct_name,
                label_index,
                &metric.metric_type,
                is_last_label,
            ),
        }
    }

    /// The name of the storage type of this depth.
    pub(crate) fn inner_struct_name(&self) -> (r: Ident)
        requires
            self.wf(),
        ensures
            r@ == inner_name(self.plan@.struct_name, self.depth()),
    {
        get_inner_struct_name(&self.plan.metric.struct_name, self.label_index)
    }

    /// The name of the accessor type of this depth.
    pub(crate) fn delegator_struct_name(&self) -> (r: Ident)
        requires
            self.wf(),
        ensures
            r@ == delegator_name(self.plan@.struct_name, self.depth()),
    {
        get_delegator_struct_name(&self.plan.metric.struct_name, self.label_index)
    }

    /// The name of the storage type of depth 0, the root of the tree.
    pub(crate) fn root_inner_name(&self) -> (r: Ident)
        requires
            self.wf(),
        ensures
            r@ == inner_name(self.plan@.struct_name, 0),
    {
        get_inner_struct_name(&self.plan.metric.struct_name, 0)
    }
}

} // verus!
