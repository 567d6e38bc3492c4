use vstd::prelude::*;
use crate::offsets::LayoutViolation;

verus! {

/// Why nothing was generated.
#[derive(Debug, PartialEq, Eq)]
pub enum BuildError {
    /// A label refers to a `label_enum` that is not declared before the
    /// metric.
    UndefinedEnumError { enum_name: String },
    /// A `pub` metric refers to a `label_enum` that is not `pub`.
    VisibilityError { enum_name: String, metric_name: String },
    /// The labels of the metric cannot be laid out.
    LayoutAssumptionViolation { metric_name: String, violation: LayoutViolation },
    /// The generation-order counter cannot number another metric.
    ScopeExhausted,
}

/// What a [`BuildError`] stands for.
pub enum BuildErrorView {
    UndefinedEnumError { enum_name: Seq<char> },
    VisibilityError { enum_name: Seq<char>, metric_name: Seq<char> },
    LayoutAssumptionViolation { metric_name: Seq<char>, violation: LayoutViolation },
    ScopeExhausted,
}

impl View for BuildError {
    type V = BuildErrorView;

    open spec fn view(&self) -> BuildErrorView {
        match self {
            BuildError::UndefinedEnumError { enum_name } => BuildErrorView::UndefinedEnumError {
                enum_name: enum_name@,
            },
            BuildError::VisibilityError { enum_name, metric_name } => {
                BuildErrorView::VisibilityError {
                    enum_name: enum_name@,
                    metric_name: metric_name@,
                }
            },
            BuildError::LayoutAssumptionViolation { metric_name, violation } => {
                BuildErrorView::LayoutAssumptionViolation {
                    metric_name: metric_name@,
                    violation: *violation,
                }
            },
            BuildError::ScopeExhausted => BuildErrorView::ScopeExhausted,
        }
    }
}

/// The diagnostic for an error: it names the construct that is at fault.
pub open spec fn message_of(e: BuildErrorView) -> Seq<char> {
    match e {
        BuildErrorView::UndefinedEnumError { enum_name } => "Label enum `"@ + enum_name
            + "` is undefined."@,
        BuildErrorView::VisibilityError { enum_name, metric_name } => "Label enum `"@ + enum_name
            + "` does not have enough visibility because it is used in metric `"@ + metric_name
            + "` which has `pub` visibility."@,
        BuildErrorView::LayoutAssumptionViolation { metric_name, violation } => "Metric `"@
            + metric_name + "` cannot be laid out: "@ + (match violation {
            LayoutViolation::NoLabels => "it has no label."@,
            LayoutViolation::NoValues { depth } => "one of its labels has no value."@,
            LayoutViolation::TooManyLeaves => "it has too many leaves."@,
        }),
        BuildErrorView::ScopeExhausted => "No scope number is left for another metric."@,
    }
}

impl BuildError {
    /// The diagnostic for this error.
    pub fn message(&self) -> (r: String)
        ensures
            r@ == message_of(self@),
    {
        match self {
            BuildError::UndefinedEnumError { enum_name } => {
                let mut out = String::from_str("Label enum `");
                out.append(enum_name.as_str());
                out.append("` is undefined.");
                out
            },
            BuildError::VisibilityError { enum_name, metric_name } => {
                let mut out = String::from_str("Label enum `");
                out.append(enum_name.as_str());
                out.append("` does not have enough visibility because it is used in metric `");
                out.append(metric_name.as_str());
                out.append("` which has `pub` visibility.");
                out
            },
            BuildError::LayoutAssumptionViolation { metric_name, violation } => {
                let mut out = String::from_str("Metric `");
                out.append(metric_name.as_str());
                out.append("` cannot be laid out: ");
                match violation {
                    LayoutViolation::NoLabels => out.append("it has no label."),
                    LayoutViolation::NoValues { depth } => out.append(
                        "one of its labels has no value.",
                    ),
                    LayoutViolation::TooManyLeaves => out.append("it has too many leaves."),
                }
                out
            },
            BuildError::ScopeExhausted => String::from_str(
                "No scope number is left for another metric.",
            ),
        }
    }
}

} // verus!
