use static_metric::ident::{ident_continue, ident_start, Ident};
use static_metric::names::{
    get_delegator_member_type, get_delegator_struct_name, get_inner_member_type,
    get_inner_struct_name, get_label_param, get_label_struct_name, get_metric_vec_type, get_offset_name, get_scope_name, is_local_metric_type,
    to_non_local_metric_type,
};
use static_metric::text::{chars_of, string_of, to_lower, to_lower_char};

fn id(s: &str) -> Ident {
    Ident::new(s).unwrap()
}

#[test]
fn chars_round_trip() {
    let v = chars_of("HTTP/1");
    assert_eq!(v, vec!['H', 'T', 'T', 'P', '/', '1']);
    assert_eq!(string_of(&v), "HTTP/1");
    assert_eq!(string_of(&vec![]), "");
}

#[test]
fn case_folding_changes_ascii_capitals_only() {
    assert_eq!(to_lower_char('A'), 'a');
    assert_eq!(to_lower_char('Z'), 'z');
    assert_eq!(to_lower_char('a'), 'a');
    assert_eq!(to_lower_char('@'), '@');
    assert_eq!(to_lower_char('['), '[');
    assert_eq!(to_lower_char('É'), 'É');
    assert_eq!(to_lower("LhrsInner_2"), "lhrsinner_2");
}

#[test]
fn an_identifier_starts_with_a_letter_or_an_underscore() {
    assert!(ident_start('a') && ident_start('Z') && ident_start('_'));
    assert!(!ident_start('0') && !ident_start('-') && !ident_start('é'));
    assert!(ident_continue('0') && ident_continue('9') && ident_continue('x'));
    assert!(!ident_continue(' ') && !ident_continue('/'));
    assert_eq!(Ident::new("foo_1").unwrap().as_str(), "foo_1");
    assert_eq!(Ident::new("_").unwrap().as_str(), "_");
    assert!(Ident::new("").is_none());
    assert!(Ident::new("1foo").is_none());
    assert!(Ident::new("foo bar").is_none());
    assert!(Ident::new("foo-bar").is_none());
    assert!(Ident::new("größe").is_none());
}

#[test]
fn identifiers_compare_by_their_spelling() {
    assert!(id("foo").same(&id("foo")));
    assert!(!id("foo").same(&id("Foo")));
    assert!(id("foo").is("foo"));
    assert!(!id("foo").is("fo"));
    assert_eq!(id("foo").clone(), id("foo"));
}

#[test]
fn identifiers_take_numbers() {
    assert_eq!(id("Lhrs").with_number(0).as_str(), "Lhrs0");
    assert_eq!(id("Lhrs").with_number(7).as_str(), "Lhrs7");
    assert_eq!(id("Lhrs").with_number(10).as_str(), "Lhrs10");
    assert_eq!(id("Lhrs").with_number(1234567890).as_str(), "Lhrs1234567890");
    assert_eq!(
        id("Lhrs").with_number(u128::MAX).as_str(),
        "Lhrs340282366920938463463374607431768211455"
    );
    assert_eq!(id("LhrsInner").lowered().as_str(), "lhrsinner");
}

#[test]
fn the_types_of_a_depth_are_named_after_the_struct_and_the_depth() {
    let name = id("Lhrs");
    assert_eq!(get_label_struct_name(&name, 0).as_str(), "Lhrs");
    assert_eq!(get_label_struct_name(&name, 1).as_str(), "Lhrs2");
    assert_eq!(get_label_struct_name(&name, 2).as_str(), "Lhrs3");
    assert_eq!(get_label_struct_name(&name, 9).as_str(), "Lhrs10");
    assert_eq!(get_label_struct_name(&name, usize::MAX).as_str(), format!("Lhrs{}", usize::MAX as u128 + 1));
    assert_eq!(get_inner_struct_name(&name, 0).as_str(), "LhrsInner");
    assert_eq!(get_inner_struct_name(&name, 1).as_str(), "Lhrs2Inner");
    assert_eq!(get_delegator_struct_name(&name, 0).as_str(), "LhrsDelegator");
    assert_eq!(get_delegator_struct_name(&name, 2).as_str(), "Lhrs3Delegator");
}

#[test]
fn the_member_type_is_the_next_depth_or_the_leaf() {
    let name = id("Lhrs");
    let metric = id("LocalIntCounter");
    assert_eq!(get_inner_member_type(&name, 0, &metric, false).as_str(), "Lhrs2Inner");
    assert_eq!(get_inner_member_type(&name, 2, &metric, true).as_str(), "LocalIntCounter");
    assert_eq!(get_delegator_member_type(&name, 0, false).as_str(), "Lhrs2Delegator");
    assert_eq!(get_delegator_member_type(&name, 2, true).as_str(), "usize");
}

#[test]
fn scopes_offsets_and_parameters_are_numbered() {
    assert_eq!(get_scope_name(0).as_str(), "prometheus_static_scope_0");
    assert_eq!(get_scope_name(42).as_str(), "prometheus_static_scope_42");
    assert_eq!(get_offset_name(1).as_str(), "offset1");
    assert_eq!(get_offset_name(12).as_str(), "offset12");
    assert_eq!(get_label_param(0).as_str(), "label_0");
}

#[test]
fn the_shared_vector_is_named_without_local() {
    assert!(is_local_metric_type(&id("LocalIntCounter")));
    assert!(is_local_metric_type(&id("Local")));
    assert!(!is_local_metric_type(&id("IntCounter")));
    assert!(!is_local_metric_type(&id("Loca")));
    assert!(!is_local_metric_type(&id("localCounter")));
    assert_eq!(get_metric_vec_type(&id("LocalIntCounter")).as_str(), "IntCounterVec");
    assert_eq!(get_metric_vec_type(&id("LocalHistogram")).as_str(), "HistogramVec");
    assert_eq!(get_metric_vec_type(&id("IntCounter")).as_str(), "IntCounterVec");
    assert_eq!(get_metric_vec_type(&id("Local")).as_str(), "Vec");
    assert_eq!(to_non_local_metric_type(id("LocalCounter")).as_str(), "Counter");
    // What is left must be a name.
    assert_eq!(to_non_local_metric_type(id("Local")).as_str(), "Local");
    assert_eq!(to_non_local_metric_type(id("Local1")).as_str(), "Local1");
    assert_eq!(to_non_local_metric_type(id("Local_1")).as_str(), "_1");
}
