use static_metric::accessor::find_field;
use static_metric::ast::{EnumTable, MetricDef, MetricValueDef, StaticMetricMacroBody, StaticMetricMacroBodyItem};
use static_metric::auto_flush_builder::count_metrics;
use static_metric::errors::BuildError;
use static_metric::ident::Ident;
use static_metric::offsets::LayoutViolation;
use static_metric::parser::parse;
use static_metric::plan::{check_references, MetricPlan};

fn metric_of(body: &StaticMetricMacroBody) -> &MetricDef {
    body.items
        .iter()
        .find_map(|item| match item {
            StaticMetricMacroBodyItem::Metric(m) => Some(m),
            StaticMetricMacroBodyItem::Enum(_) => None,
        })
        .unwrap()
}

fn enums_of(body: &StaticMetricMacroBody) -> EnumTable<'_> {
    let mut enums = EnumTable::new();
    for item in &body.items {
        if let StaticMetricMacroBodyItem::Enum(e) = item {
            enums.insert(e);
        }
    }
    enums
}

fn names(path: &[&str]) -> Vec<String> {
    path.iter().map(|s| s.to_string()).collect()
}

const LHRS: &str = "
    pub label_enum Methods { post, get, put, delete }
    pub struct Lhrs: LocalIntCounter {
        \"product\" => { foo, bar },
        \"method\" => Methods,
        \"version\" => { http1: \"HTTP/1\", http2: \"HTTP/2\" },
    }";

#[test]
fn a_plan_holds_the_values_of_every_label() {
    let body = parse(LHRS).unwrap();
    let enums = enums_of(&body);
    let plan = MetricPlan::new(metric_of(&body), &enums).unwrap();
    assert_eq!(plan.depth(), 3);
    assert_eq!(plan.counts(), vec![2, 4, 2]);
    assert_eq!(plan.labels[0].key, "product");
    assert_eq!(plan.labels[0].enum_name, None);
    assert_eq!(plan.labels[1].key, "method");
    assert_eq!(plan.labels[1].enum_name.unwrap().as_str(), "Methods");
    let methods: Vec<&str> = plan.labels[1].values.iter().map(|v| v.name.as_str()).collect();
    assert_eq!(methods, vec!["post", "get", "put", "delete"]);
    assert_eq!(plan.labels[2].values[1].value, "HTTP/2");
    assert_eq!(plan.offsets.leaves(), 16);
}

#[test]
fn a_path_is_found_by_the_names_of_its_fields() {
    let body = parse(LHRS).unwrap();
    let enums = enums_of(&body);
    let plan = MetricPlan::new(metric_of(&body), &enums).unwrap();
    assert_eq!(plan.path_of(&names(&["foo", "post", "http1"])), Some(vec![0, 0, 0]));
    assert_eq!(plan.path_of(&names(&["bar", "put", "http2"])), Some(vec![1, 2, 1]));
    assert_eq!(plan.path_of(&names(&["bar", "put"])), None);
    assert_eq!(plan.path_of(&names(&["bar", "put", "http2", "x"])), None);
    assert_eq!(plan.path_of(&names(&["bar", "patch", "http2"])), None);
    // Fields are found by their names, not by their label strings.
    assert_eq!(plan.path_of(&names(&["bar", "put", "HTTP/2"])), None);
}

#[test]
fn the_variant_of_an_enum_names_the_field_at_its_place() {
    let body = parse(LHRS).unwrap();
    let enums = enums_of(&body);
    let plan = MetricPlan::new(metric_of(&body), &enums).unwrap();
    let variants = &enums.get(&Ident::new("Methods").unwrap()).unwrap().definitions;
    for (place, variant) in variants.iter().enumerate() {
        assert_eq!(find_field(plan.labels[1].values, variant.name.as_str()), Some(place));
    }
    assert_eq!(find_field(plan.labels[1].values, "patch"), None);
}

#[test]
fn the_first_field_of_a_name_is_found() {
    let values = vec![
        MetricValueDef::short(Ident::new("a").unwrap()),
        MetricValueDef::short(Ident::new("b").unwrap()),
        MetricValueDef::short(Ident::new("a").unwrap()),
    ];
    assert_eq!(find_field(&values, "a"), Some(0));
    assert_eq!(find_field(&values, "b"), Some(1));
    assert_eq!(find_field(&vec![], "a"), None);
}

#[test]
fn a_plan_fails_as_the_references_and_the_layout_fail() {
    let body = parse("struct M: Counter { \"a\" => { }, \"k\" => E }").unwrap();
    let r = MetricPlan::new(metric_of(&body), &EnumTable::new());
    assert_eq!(r.err(), Some(BuildError::UndefinedEnumError { enum_name: "E".to_string() }));
    assert_eq!(
        check_references(metric_of(&body), &EnumTable::new()),
        Err(BuildError::UndefinedEnumError { enum_name: "E".to_string() })
    );

    let body = parse("label_enum E { x } struct M: Counter { \"a\" => { }, \"k\" => E }").unwrap();
    let enums = enums_of(&body);
    assert_eq!(check_references(metric_of(&body), &enums), Ok(()));
    let r = MetricPlan::new(metric_of(&body), &enums);
    assert_eq!(
        r.err(),
        Some(BuildError::LayoutAssumptionViolation {
            metric_name: "M".to_string(),
            violation: LayoutViolation::NoValues { depth: 0 },
        })
    );
}

#[test]
fn the_enum_declared_last_is_the_one_that_is_found() {
    let body = parse("label_enum E { a } label_enum F { b } label_enum E { c, d }").unwrap();
    let enums = enums_of(&body);
    let found = enums.get(&Ident::new("E").unwrap()).unwrap();
    assert_eq!(found.definitions.len(), 2);
    assert_eq!(enums.get(&Ident::new("F").unwrap()).unwrap().definitions.len(), 1);
    assert!(enums.get(&Ident::new("G").unwrap()).is_none());
}

#[test]
fn metrics_are_counted() {
    assert_eq!(count_metrics(&parse("").unwrap()), 0);
    assert_eq!(count_metrics(&parse("label_enum E { a }").unwrap()), 0);
    assert_eq!(
        count_metrics(
            &parse("struct A: C { } label_enum E { a } struct B: C { } struct D: C { }").unwrap()
        ),
        3
    );
}
