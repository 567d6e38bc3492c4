use static_metric::auto_flush_builder::{AutoFlushTokensBuilder, ScopeCounter};
use static_metric::errors::BuildError;
use static_metric::offsets::LayoutViolation;
use static_metric::parser::parse;
use static_metric::validate::validate;

fn undefined(name: &str) -> BuildError {
    BuildError::UndefinedEnumError { enum_name: name.to_string() }
}

fn visibility(enum_name: &str, metric_name: &str) -> BuildError {
    BuildError::VisibilityError {
        enum_name: enum_name.to_string(),
        metric_name: metric_name.to_string(),
    }
}

fn check(text: &str) -> Result<(), BuildError> {
    validate(&parse(text).unwrap())
}

#[test]
fn a_metric_may_name_an_enum_declared_before_it() {
    assert_eq!(check("label_enum E { a } struct M: Counter { \"k\" => E }"), Ok(()));
}

#[test]
fn an_enum_that_is_not_declared_is_undefined() {
    assert_eq!(check("struct M: Counter { \"k\" => E }"), Err(undefined("E")));
    assert_eq!(check("label_enum F { a } struct M: Counter { \"k\" => E }"), Err(undefined("E")));
}

#[test]
fn an_enum_declared_after_the_metric_is_undefined() {
    assert_eq!(check("struct M: Counter { \"k\" => E } label_enum E { a }"), Err(undefined("E")));
}

#[test]
fn a_public_metric_against_a_private_enum_fails() {
    assert_eq!(
        check("label_enum E { a } pub struct M: Counter { \"k\" => E }"),
        Err(visibility("E", "M"))
    );
}

#[test]
fn a_public_metric_against_a_public_enum_succeeds() {
    assert_eq!(check("pub label_enum E { a } pub struct M: Counter { \"k\" => E }"), Ok(()));
}

#[test]
fn a_private_metric_may_name_any_declared_enum() {
    assert_eq!(check("label_enum E { a } struct M: Counter { \"k\" => E }"), Ok(()));
    assert_eq!(check("pub label_enum E { a } struct M: Counter { \"k\" => E }"), Ok(()));
}

#[test]
fn values_written_in_place_are_not_checked_for_visibility() {
    assert_eq!(check("pub struct M: Counter { \"k\" => { a, b } }"), Ok(()));
}

#[test]
fn the_first_reference_out_of_order_is_reported() {
    assert_eq!(
        check(
            "label_enum P { a }
             pub struct M: Counter { \"x\" => { a }, \"k\" => P, \"l\" => Missing }
             struct N: Counter { \"k\" => Other }"
        ),
        Err(visibility("P", "M"))
    );
    assert_eq!(
        check(
            "label_enum P { a }
             struct M: Counter { \"k\" => P, \"l\" => Missing }
             pub struct N: Counter { \"k\" => P }"
        ),
        Err(undefined("Missing"))
    );
}

#[test]
fn a_later_declaration_hides_an_earlier_one_of_the_same_name() {
    assert_eq!(
        check("pub label_enum E { a } label_enum E { b } pub struct M: Counter { \"k\" => E }"),
        Err(visibility("E", "M"))
    );
    assert_eq!(
        check("label_enum E { a } pub label_enum E { b } pub struct M: Counter { \"k\" => E }"),
        Ok(())
    );
}

#[test]
fn validation_does_not_look_at_the_layout() {
    assert_eq!(check("struct M: Counter { }"), Ok(()));
    assert_eq!(check("struct M: Counter { \"k\" => { } }"), Ok(()));
}

#[test]
fn every_reference_is_checked_before_any_layout() {
    let body =
        parse("struct Empty: Counter { } struct M: Counter { \"k\" => Missing }").unwrap();
    let mut counter = ScopeCounter::new();
    let r = AutoFlushTokensBuilder::build(body, &mut counter);
    assert_eq!(r.err(), Some(undefined("Missing")));
    assert_eq!(counter.next, 0);
}

#[test]
fn the_messages_name_the_construct_at_fault() {
    assert_eq!(undefined("Methods").message(), "Label enum `Methods` is undefined.");
    assert_eq!(
        visibility("Methods", "Lhrs").message(),
        "Label enum `Methods` does not have enough visibility because it is used in metric \
         `Lhrs` which has `pub` visibility."
    );
    let layout = |violation| BuildError::LayoutAssumptionViolation {
        metric_name: "Lhrs".to_string(),
        violation,
    };
    assert_eq!(
        layout(LayoutViolation::NoLabels).message(),
        "Metric `Lhrs` cannot be laid out: it has no label."
    );
    assert_eq!(
        layout(LayoutViolation::NoValues { depth: 1 }).message(),
        "Metric `Lhrs` cannot be laid out: one of its labels has no value."
    );
    assert_eq!(
        layout(LayoutViolation::TooManyLeaves).message(),
        "Metric `Lhrs` cannot be laid out: it has too many leaves."
    );
    assert_eq!(
        BuildError::ScopeExhausted.message(),
        "No scope number is left for another metric."
    );
}
