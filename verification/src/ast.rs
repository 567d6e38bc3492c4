use vstd::prelude::*;
use crate::ident::Ident;
use crate::text::lower;

verus! {

/// Who may name a generated item.
#[derive(Clone, Copy, PartialEq, Eq, Structural, Debug)]
pub enum Visibility {
    /// Declared with `pub`.
    Public,
    /// Declared without a marker: private to the enclosing module.
    Inherited,
}

/// One value of a label: the field that stands for it and the label string
/// that is reported for it.
#[derive(Debug, PartialEq, Eq)]
pub struct MetricValueDef {
    pub name: Ident,
    pub value: String,
}

/// What a [`MetricValueDef`] stands for.
pub struct ValueDefView {
    pub name: Seq<char>,
    pub value: Seq<char>,
}

impl View for MetricValueDef {
    type V = ValueDefView;

    open spec fn view(&self) -> ValueDefView {
        ValueDefView { name: self.name@, value: self.value@ }
    }
}

/// The views of a list of values, in order.
pub open spec fn values_view(values: Seq<MetricValueDef>) -> Seq<ValueDefView> {
    Seq::new(values.len(), |i: int| values[i]@)
}

impl MetricValueDef {
    /// A value written as `name: "value"`.
    pub fn full(name: Ident, value: String) -> (r: MetricValueDef)
        ensures
            r@ == (ValueDefView { name: name@, value: value@ }),
    {
        MetricValueDef { name, value }
    }

    /// A value written as a bare name: its label string is the name,
    /// case-folded.
    pub fn short(name: Ident) -> (r: MetricValueDef)
        ensures
            r@ == (ValueDefView { name: name@, value: lower(name@) }),
    {
        let folded = name.lowered();
        let value = String::from_str(folded.as_str());
        MetricValueDef { name, value }
    }
}

/// A `label_enum` declaration: a named set of label values that several
/// metrics may share.
#[derive(Debug, PartialEq, Eq)]
pub struct MetricEnumDef {
    pub visibility: Visibility,
    pub enum_name: Ident,
    pub definitions: Vec<MetricValueDef>,
}

/// What a [`MetricEnumDef`] stands for.
pub struct EnumDefView {
    pub visibility: Visibility,
    pub name: Seq<char>,
    pub values: Seq<ValueDefView>,
}

impl View for MetricEnumDef {
    type V = EnumDefView;

    open spec fn view(&self) -> EnumDefView {
        EnumDefView {
            visibility: self.visibility,
            name: self.enum_name@,
            values: values_view(self.definitions@),
        }
    }
}

/// Where the values of a label come from.
#[derive(Debug, PartialEq, Eq)]
pub enum MetricLabelArm {
    /// Written in place, between braces.
    ValueDefinitionList(Vec<MetricValueDef>),
    /// The values of the `label_enum` of that name.
    EnumReference(Ident),
}

/// What a [`MetricLabelArm`] stands for.
pub enum LabelArmView {
    Values(Seq<ValueDefView>),
    Enum(Seq<char>),
}

impl View for MetricLabelArm {
    type V = LabelArmView;

    open spec fn view(&self) -> LabelArmView {
        match self {
            MetricLabelArm::ValueDefinitionList(values) => LabelArmView::Values(
                values_view(values@),
            ),
            MetricLabelArm::EnumReference(name) => LabelArmView::Enum(name@),
        }
    }
}

/// One label of a metric: its key and its values.
#[derive(Debug, PartialEq, Eq)]
pub struct MetricLabelDef {
    pub label_key: String,
    pub arm: MetricLabelArm,
}

/// What a [`MetricLabelDef`] stands for.
pub struct LabelDefView {
    pub key: Seq<char>,
    pub arm: LabelArmView,
}

impl View for MetricLabelDef {
    type V = LabelDefView;

    open spec fn view(&self) -> LabelDefView {
        LabelDefView { key: self.label_key@, arm: self.arm@ }
    }
}

/// The views of a list of labels, in order.
pub open spec fn labels_view(labels: Seq<MetricLabelDef>) -> Seq<LabelDefView> {
    Seq::new(labels.len(), |i: int| labels[i]@)
}

impl MetricLabelDef {
    /// The name of the `label_enum` that the label refers to, if it does.
    pub fn get_enum_ident(&self) -> (r: Option<&Ident>)
        ensures
            match self@.arm {
                LabelArmView::Enum(name) => r matches Some(id) && id@ == name,
                LabelArmView::Values(_) => r is None,
            },
    {
        match &self.arm {
            MetricLabelArm::EnumReference(name) => Some(name),
            MetricLabelArm::ValueDefinitionList(_) => None,
        }
    }
}

/// A metric declaration: a struct name, the kind of metric at the leaves,
/// and the labels from the outermost to the innermost.
#[derive(Debug, PartialEq, Eq)]
pub struct MetricDef {
    pub visibility: Visibility,
    pub struct_name: Ident,
    pub metric_type: Ident,
    pub labels: Vec<MetricLabelDef>,
}

/// What a [`MetricDef`] stands for.
pub struct MetricDefView {
    pub visibility: Visibility,
    pub name: Seq<char>,
    pub metric_type: Seq<char>,
    pub labels: Seq<LabelDefView>,
}

impl View for MetricDef {
    type V = MetricDefView;

    open spec fn view(&self) -> MetricDefView {
        MetricDefView {
            visibility: self.visibility,
            name: self.struct_name@,
            metric_type: self.metric_type@,
            labels: labels_view(self.labels@),
        }
    }
}

/// One declaration of the input.
#[derive(Debug, PartialEq, Eq)]
pub enum StaticMetricMacroBodyItem {
    Metric(MetricDef),
    Enum(MetricEnumDef),
}

/// What a [`StaticMetricMacroBodyItem`] stands for.
pub enum ItemView {
    Metric(MetricDefView),
    Enum(EnumDefView),
}

impl View for StaticMetricMacroBodyItem {
    type V = ItemView;

    open spec fn view(&self) -> ItemView {
        match self {
            StaticMetricMacroBodyItem::Metric(m) => ItemView::Metric(m@),
            StaticMetricMacroBodyItem::Enum(e) => ItemView::Enum(e@),
        }
    }
}

/// The declarations of one input, in the order in which they were written.
#[derive(Debug, PartialEq, Eq)]
pub struct StaticMetricMacroBody {
    pub items: Vec<StaticMetricMacroBodyItem>,
}

impl View for StaticMetricMacroBody {
    type V = Seq<ItemView>;

    open spec fn view(&self) -> Seq<ItemView> {
        Seq::new(self.items@.len(), |i: int| self.items@[i]@)
    }
}

/// The `label_enum` named `name` among `enums`: the one declared last, if
/// several have that name.
pub open spec fn lookup_enum(enums: Seq<EnumDefView>, name: Seq<char>) -> Option<EnumDefView>
    decreases enums.len(),
{
    if enums.len() == 0 {
        None
    } else if enums.last().name == name {
        Some(enums.last())
    } else {
        lookup_enum(enums.drop_last(), name)
    }
}

/// The values of a label, given the `label_enum`s declared before it; `None`
/// if it refers to one that is not among them.
pub open spec fn label_values(label: LabelDefView, enums: Seq<EnumDefView>) -> Option<
    Seq<ValueDefView>,
> {
    match label.arm {
        LabelArmView::Values(values) => Some(values),
        LabelArmView::Enum(name) => match lookup_enum(enums, name) {
            Some(e) => Some(e.values),
            None => None,
        },
    }
}

/// The `label_enum`s declared so far, oldest first.
pub struct EnumTable<'a> {
    pub enums: Vec<&'a MetricEnumDef>,
}

impl<'a> View for EnumTable<'a> {
    type V = Seq<EnumDefView>;

    open spec fn view(&self) -> Seq<EnumDefView> {
        Seq::new(self.enums@.len(), |i: int| self.enums@[i]@)
    }
}

impl<'a> EnumTable<'a> {
    /// A table without declarations.
    pub fn new() -> (r: EnumTable<'a>)
        ensures
            r@ == Seq::<EnumDefView>::empty(),
    {
        EnumTable { enums: Vec::new() }
    }

    /// Records a declaration. It hides an earlier one of the same name.
    pub fn insert(&mut self, e: &'a MetricEnumDef)
        ensures
            final(self)@ == old(self)@.push(e@),
    {
        self.enums.push(e);
    }

    /// The declaration named `name`, if there is one.
    pub fn get(&self, name: &Ident) -> (r: Option<&'a MetricEnumDef>)
        ensures
            match lookup_enum(self@, name@) {
                Some(e) => r matches Some(found) && found@ == e,
                None => r is None,
            },
    {
        let mut i: usize = self.enums.len();
        assert(self@.take(i as int) == self@);
        while i > 0
            invariant
                i <= self.enums.len(),
                lookup_enum(self@, name@) == lookup_enum(self@.take(i as int), name@),
            decreases i,
        {
            let e: &'a MetricEnumDef = self.enums[i - 1];
            proof {
                let prefix = self@.take(i as int);
                assert(prefix.last() == e@);
                assert(prefix.drop_last() == self@.take(i - 1));
            }
            if e.enum_name.same(name) {
                return Some(e);
            }
            i -= 1;
        }
        assert(self@.take(0).len() == 0);
        None
    }
}

impl MetricLabelDef {
    /// The values of the label, given the `label_enum`s declared before it.
    pub fn get_value_def_list<'a>(&'a self, enums: &EnumTable<'a>) -> (r: Option<
        &'a Vec<MetricValueDef>,
    >)
        ensures
            match label_values(self@, enums@) {
                Some(values) => r matches Some(found) && values_view(found@) == values,
                None => r is None,
            },
    {
        match &self.arm {
            MetricLabelArm::ValueDefinitionList(values) => Some(values),
            MetricLabelArm::EnumReference(name) => match enums.get(name) {
                Some(e) => Some(&e.definitions),
                None => None,
            },
        }
    }
}

} // verus!
