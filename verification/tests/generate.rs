use proc_macro2::{Delimiter, TokenStream, TokenTree};
use static_metric::ast::{
    MetricDef, MetricEnumDef, MetricLabelArm, MetricLabelDef, MetricValueDef,
    StaticMetricMacroBody, StaticMetricMacroBodyItem, Visibility,
};
use static_metric::auto_flush_builder::{AutoFlushTokensBuilder, ScopeCounter};
use static_metric::errors::BuildError;
use static_metric::expand::{make_auto_flush_static_metric, ExpandError};
use static_metric::ident::Ident;
use static_metric::label_enum::TokensBuilder;
use static_metric::lexer::{Expected, ParseError};
use static_metric::offsets::LayoutViolation;
use static_metric::parser::parse;

fn id(s: &str) -> Ident {
    Ident::new(s).unwrap()
}

fn short(s: &str) -> MetricValueDef {
    MetricValueDef::short(id(s))
}

fn full(name: &str, value: &str) -> MetricValueDef {
    MetricValueDef::full(id(name), value.to_string())
}

/// The tokens of a stream, each as it is written, with the brackets of the
/// groups among them.
fn flatten(tokens: TokenStream) -> Vec<String> {
    let mut out = Vec::new();
    for tree in tokens {
        match tree {
            TokenTree::Group(g) => {
                let (open, close) = match g.delimiter() {
                    Delimiter::Parenthesis => ("(", ")"),
                    Delimiter::Brace => ("{", "}"),
                    Delimiter::Bracket => ("[", "]"),
                    Delimiter::None => ("", ""),
                };
                out.push(open.to_string());
                out.extend(flatten(g.stream()));
                out.push(close.to_string());
            }
            other => out.push(other.to_string()),
        }
    }
    out
}

fn rust(text: &str) -> Vec<String> {
    flatten(text.parse::<TokenStream>().unwrap())
}

fn holds(tokens: &[String], part: &str) -> bool {
    let part = rust(part);
    tokens.windows(part.len()).any(|w| w == &part[..])
}

fn build(text: &str, counter: &mut ScopeCounter) -> Result<TokenStream, BuildError> {
    AutoFlushTokensBuilder::build(parse(text).unwrap(), counter)
}

fn methods() -> MetricEnumDef {
    MetricEnumDef {
        visibility: Visibility::Public,
        enum_name: id("Methods"),
        definitions: vec![short("post"), short("get"), short("put"), short("delete")],
    }
}

fn lhrs() -> MetricDef {
    MetricDef {
        visibility: Visibility::Public,
        struct_name: id("Lhrs"),
        metric_type: id("LocalIntCounter"),
        labels: vec![
            MetricLabelDef {
                label_key: "product".to_string(),
                arm: MetricLabelArm::ValueDefinitionList(vec![short("foo"), short("bar")]),
            },
            MetricLabelDef {
                label_key: "method".to_string(),
                arm: MetricLabelArm::EnumReference(id("Methods")),
            },
            MetricLabelDef {
                label_key: "version".to_string(),
                arm: MetricLabelArm::ValueDefinitionList(vec![
                    full("http1", "HTTP/1"),
                    full("http2", "HTTP/2"),
                ]),
            },
        ],
    }
}

#[test]
fn generated_code_is_rust() {
    let body = StaticMetricMacroBody {
        items: vec![
            StaticMetricMacroBodyItem::Enum(methods()),
            StaticMetricMacroBodyItem::Metric(lhrs()),
        ],
    };
    let mut counter = ScopeCounter::new();
    let tokens = AutoFlushTokensBuilder::build(body, &mut counter).unwrap();
    assert_eq!(counter.next, 1);
    let file = syn::parse_file(&tokens.to_string()).unwrap();
    // The enum with its three impls, two lines of `use`, and the module.
    assert_eq!(file.items.len(), 7);
}

#[test]
fn a_metric_over_one_label_is_generated_in_full() {
    let mut counter = ScopeCounter::new();
    let tokens =
        build("pub struct Lhrs: LocalIntCounter { \"product\" => { foo, bar } }", &mut counter)
            .unwrap();
    let expected = r#"
        pub use self::prometheus_static_scope_0::LhrsInner;
        pub use self::prometheus_static_scope_0::Lhrs;

        #[allow(dead_code)]
        mod prometheus_static_scope_0 {
            use ::std::collections::HashMap;
            use ::prometheus::*;
            use ::prometheus::local::*;
            use ::std::cell::Cell;
            use ::coarsetime::Instant;
            use ::std::thread::LocalKey;
            #[allow(unused_imports)]
            use super::*;

            #[allow(missing_copy_implementations)]
            pub struct LhrsInner {
                pub foo: LocalIntCounter,
                pub bar: LocalIntCounter,
                last_flush: Cell<Instant>,
            }
            impl LhrsInner {
                pub fn from(m: &IntCounterVec) -> LhrsInner {
                    LhrsInner {
                        foo: m.with(&{
                            let mut coll = HashMap::new();
                            coll.insert("product", "foo");
                            coll
                        }).local(),
                        bar: m.with(&{
                            let mut coll = HashMap::new();
                            coll.insert("product", "bar");
                            coll
                        }).local(),
                        last_flush: Cell::new(Instant::now()),
                    }
                }
                pub fn flush(&self) {
                    self.foo.flush();
                    self.bar.flush();
                }
                pub fn member(&self, offset: usize) -> &LocalIntCounter {
                    match offset {
                        0 => &self.foo,
                        1 => &self.bar,
                        _ => unreachable!(),
                    }
                }
            }
            impl ::prometheus::local::LocalMetric for LhrsInner {
                fn flush(&self) {
                    LhrsInner::flush(self);
                }
            }
            impl ::prometheus::local::MayFlush for LhrsInner {
                fn may_flush(&self) {
                    MayFlush::try_flush(self, &self.last_flush, 1 as f64)
                }
            }
            #[allow(missing_copy_implementations)]
            pub struct LhrsDelegator {
                root: &'static LocalKey<LhrsInner>,
                pub offset1: usize,
            }
            impl LhrsDelegator {
                pub fn new(root: &'static LocalKey<LhrsInner>, offset1: usize,) -> LhrsDelegator {
                    LhrsDelegator { root, offset1, }
                }
            }
            impl AFLocalCounterDelegator<LhrsInner, LocalIntCounter> for LhrsDelegator {
                fn get_root_metric(&self) -> &'static LocalKey<LhrsInner> {
                    self.root
                }
                fn get_counter<'a>(&self, root_metric: &'a LhrsInner) -> &'a LocalIntCounter {
                    let lhrsinner = root_metric;
                    let localintcounter = lhrsinner.member(self.offset1);
                    localintcounter
                }
            }
            pub struct Lhrs {
                inner: &'static LocalKey<LhrsInner>,
                pub foo: LhrsDelegator,
                pub bar: LhrsDelegator,
            }
            impl Lhrs {
                pub fn from(inner: &'static LocalKey<LhrsInner>) -> Lhrs {
                    let foo = LhrsDelegator::new(inner, 0,);
                    let bar = LhrsDelegator::new(inner, 1,);
                    Lhrs { inner, foo, bar, }
                }
                pub fn flush(&self) {
                    self.inner.with(|m| m.flush())
                }
            }
        }
    "#;
    assert_eq!(flatten(tokens), rust(expected));
    assert_eq!(counter.next, 1);
}

#[test]
fn a_label_enum_is_generated_in_full() {
    let e = MetricEnumDef {
        visibility: Visibility::Public,
        enum_name: id("Version"),
        definitions: vec![full("http1", "HTTP/1"), short("Other")],
    };
    let expected = r#"
        #[allow(dead_code)]
        #[allow(non_camel_case_types)]
        #[derive(Clone, Copy, PartialEq)]
        pub enum Version {
            http1,
            Other,
        }
        impl Version {
            pub fn get_str(&self) -> &'static str {
                match self {
                    Version::http1 => "HTTP/1",
                    Version::Other => "other",
                }
            }
        }
        impl ::std::fmt::Debug for Version {
            fn fmt(&self, f: &mut ::std::fmt::Formatter) -> ::std::fmt::Result {
                write!(f, "{}", self.get_str())
            }
        }
        impl ::std::fmt::Display for Version {
            fn fmt(&self, f: &mut ::std::fmt::Formatter) -> ::std::fmt::Result {
                ::std::fmt::Debug::fmt(self, f)
            }
        }
    "#;
    assert_eq!(flatten(TokensBuilder::build_label_enum(&e)), rust(expected));
}

#[test]
fn a_private_label_enum_has_no_marker() {
    let e = MetricEnumDef {
        visibility: Visibility::Inherited,
        enum_name: id("E"),
        definitions: vec![short("a")],
    };
    let tokens = flatten(TokensBuilder::build_label_enum(&e));
    assert!(holds(&tokens, "#[derive(Clone, Copy, PartialEq)] enum E { a, }"));
}

#[test]
fn a_private_metric_is_made_known_without_a_marker() {
    let mut counter = ScopeCounter::new();
    let tokens = flatten(build("struct M: Counter { \"k\" => { a } }", &mut counter).unwrap());
    assert_eq!(tokens[0], "use");
    assert!(holds(&tokens, "use self::prometheus_static_scope_0::MInner; use self::prometheus_static_scope_0::M;"));
}

#[test]
fn a_metric_that_is_shared_is_taken_as_it_is() {
    let mut counter = ScopeCounter::new();
    let tokens = flatten(build("struct M: IntCounter { \"k\" => { a } }", &mut counter).unwrap());
    assert!(holds(&tokens, "pub fn from(m: &IntCounterVec) -> MInner"));
    assert!(holds(
        &tokens,
        "a: m.with(&{ let mut coll = HashMap::new(); coll.insert(\"k\", \"a\"); coll }),"
    ));
    assert!(!holds(&tokens, ".local()"));
}

#[test]
fn the_offsets_of_a_deep_metric_count_leaves() {
    let body = StaticMetricMacroBody {
        items: vec![
            StaticMetricMacroBodyItem::Enum(methods()),
            StaticMetricMacroBodyItem::Metric(lhrs()),
        ],
    };
    let mut counter = ScopeCounter::new();
    let tokens = flatten(AutoFlushTokensBuilder::build(body, &mut counter).unwrap());
    // Two products over four methods over two versions.
    assert!(holds(&tokens, "let foo = LhrsDelegator::new(inner, 0,); let bar = LhrsDelegator::new(inner, 8,);"));
    assert!(holds(
        &tokens,
        "match offset { 0 => &self.foo, 8 => &self.bar, _ => unreachable!(), }"
    ));
    assert!(holds(
        &tokens,
        "match offset { 0 => &self.post, 2 => &self.get, 4 => &self.put, 6 => &self.delete, _ => unreachable!(), }"
    ));
    assert!(holds(
        &tokens,
        "match offset { 0 => &self.http1, 1 => &self.http2, _ => unreachable!(), }"
    ));
    assert!(holds(
        &tokens,
        "pub fn new(root: &'static LocalKey<LhrsInner>, offset1: usize,) -> LhrsDelegator {
            let post = Lhrs2Delegator::new(root, offset1, 0,);
            let get = Lhrs2Delegator::new(root, offset1, 2,);
            let put = Lhrs2Delegator::new(root, offset1, 4,);
            let delete = Lhrs2Delegator::new(root, offset1, 6,);
            LhrsDelegator { post, get, put, delete, }
        }"
    ));
    assert!(holds(
        &tokens,
        "pub fn new(root: &'static LocalKey<LhrsInner>, offset1: usize, offset2: usize,) -> Lhrs2Delegator {
            let http1 = Lhrs3Delegator::new(root, offset1, offset2, 0,);
            let http2 = Lhrs3Delegator::new(root, offset1, offset2, 1,);
            Lhrs2Delegator { http1, http2, }
        }"
    ));
    assert!(holds(
        &tokens,
        "fn get_counter<'a>(&self, root_metric: &'a LhrsInner) -> &'a LocalIntCounter {
            let lhrsinner = root_metric;
            let lhrs2inner = lhrsinner.member(self.offset1);
            let lhrs3inner = lhrs2inner.member(self.offset2);
            let localintcounter = lhrs3inner.member(self.offset3);
            localintcounter
        }"
    ));
}

#[test]
fn the_leaves_are_made_from_the_labels_of_every_depth() {
    let body = StaticMetricMacroBody {
        items: vec![
            StaticMetricMacroBodyItem::Enum(methods()),
            StaticMetricMacroBodyItem::Metric(lhrs()),
        ],
    };
    let mut counter = ScopeCounter::new();
    let tokens = flatten(AutoFlushTokensBuilder::build(body, &mut counter).unwrap());
    assert!(holds(
        &tokens,
        "pub fn from(m: &IntCounterVec) -> LhrsInner {
            LhrsInner {
                foo: Lhrs2Inner::from(\"foo\", m,),
                bar: Lhrs2Inner::from(\"bar\", m,),
                last_flush: Cell::new(Instant::now()),
            }
        }"
    ));
    assert!(holds(
        &tokens,
        "pub fn from(label_0: &str, m: &IntCounterVec) -> Lhrs2Inner {
            Lhrs2Inner {
                post: Lhrs3Inner::from(label_0, \"post\", m,),
                get: Lhrs3Inner::from(label_0, \"get\", m,),
                put: Lhrs3Inner::from(label_0, \"put\", m,),
                delete: Lhrs3Inner::from(label_0, \"delete\", m,),
            }
        }"
    ));
    assert!(holds(
        &tokens,
        "http2: m.with(&{
            let mut coll = HashMap::new();
            coll.insert(\"product\", label_0);
            coll.insert(\"method\", label_1);
            coll.insert(\"version\", \"HTTP/2\");
            coll
        }).local(),"
    ));
    // Only the root remembers when it was flushed.
    assert!(holds(&tokens, "pub struct Lhrs2Inner { pub post: Lhrs3Inner, pub get: Lhrs3Inner, pub put: Lhrs3Inner, pub delete: Lhrs3Inner, }"));
}

#[test]
fn get_leads_to_the_field_named_like_the_variant() {
    let text = "
        pub label_enum FooBar { foo, bar }
        pub label_enum Methods { post, get }
        pub struct Lhrs: LocalHistogram {
            \"product\" => FooBar,
            \"method\" => Methods,
            \"version\" => { http1: \"HTTP/1\", http2: \"HTTP/2\" },
        }";
    let mut counter = ScopeCounter::new();
    let tokens = flatten(build(text, &mut counter).unwrap());
    // On the public handle, over the enum of the first label.
    assert!(holds(
        &tokens,
        "pub struct Lhrs { inner: &'static LocalKey<LhrsInner>, pub foo: LhrsDelegator, pub bar: LhrsDelegator, }"
    ));
    assert!(holds(
        &tokens,
        "pub fn get(&self, enum_value: FooBar) -> &LhrsDelegator {
            match enum_value { FooBar::foo => &self.foo, FooBar::bar => &self.bar, }
        }"
    ));
    // On the accessor of the first depth, over the enum of the second
    // label, whose values name its fields.
    assert!(holds(
        &tokens,
        "pub struct LhrsDelegator { pub post: Lhrs2Delegator, pub get: Lhrs2Delegator, }"
    ));
    assert!(holds(
        &tokens,
        "pub fn get(&self, enum_value: Methods) -> &Lhrs2Delegator {
            match enum_value { Methods::post => &self.post, Methods::get => &self.get, }
        }"
    ));
    // On the storage types of the first two depths, over their own labels.
    assert!(holds(
        &tokens,
        "pub fn get(&self, enum_value: FooBar) -> &Lhrs2Inner {
            match enum_value { FooBar::foo => &self.foo, FooBar::bar => &self.bar, }
        }"
    ));
    assert!(holds(
        &tokens,
        "pub fn get(&self, enum_value: Methods) -> &Lhrs3Inner {
            match enum_value { Methods::post => &self.post, Methods::get => &self.get, }
        }"
    ));
    // The third label is written in place: no `get` over it.
    let gets = tokens.windows(2).filter(|w| w[0] == "fn" && w[1] == "get").count();
    assert_eq!(gets, 4);
    syn::parse_file(&build(text, &mut ScopeCounter::new()).unwrap().to_string()).unwrap();
}

#[test]
fn each_metric_gets_the_next_scope_number() {
    let mut counter = ScopeCounter { next: 5 };
    let tokens = flatten(
        build(
            "struct A: Counter { \"k\" => { a } }
             label_enum E { x }
             struct B: Counter { \"k\" => E }",
            &mut counter,
        )
        .unwrap(),
    );
    assert_eq!(counter.next, 7);
    assert!(holds(&tokens, "#[allow(dead_code)] mod prometheus_static_scope_5"));
    assert!(holds(&tokens, "use self::prometheus_static_scope_5::A;"));
    assert!(holds(&tokens, "#[allow(dead_code)] mod prometheus_static_scope_6"));
    assert!(holds(&tokens, "use self::prometheus_static_scope_6::BInner;"));
    assert!(!holds(&tokens, "prometheus_static_scope_7"));
}

#[test]
fn the_same_input_and_number_generate_the_same() {
    let text = "pub label_enum E { x, y } pub struct B: LocalCounter { \"k\" => E, \"l\" => { a } }";
    let first = build(text, &mut ScopeCounter { next: 3 }).unwrap();
    let second = build(text, &mut ScopeCounter { next: 3 }).unwrap();
    assert_eq!(flatten(first), flatten(second));
}

#[test]
fn nothing_declared_generates_nothing() {
    let mut counter = ScopeCounter { next: 9 };
    let tokens = build("", &mut counter).unwrap();
    assert!(tokens.is_empty());
    assert_eq!(counter.next, 9);
}

#[test]
fn a_metric_without_labels_has_no_layout() {
    let mut counter = ScopeCounter { next: 2 };
    let r = build("struct A: Counter { \"k\" => { a } } struct M: Counter { }", &mut counter);
    assert_eq!(
        r.err(),
        Some(BuildError::LayoutAssumptionViolation {
            metric_name: "M".to_string(),
            violation: LayoutViolation::NoLabels,
        })
    );
    // Nothing was generated, and no number was used.
    assert_eq!(counter.next, 2);
}

#[test]
fn a_label_without_values_has_no_fields() {
    let mut counter = ScopeCounter::new();
    let r = build(
        "label_enum E { } struct M: Counter { \"a\" => { x }, \"k\" => E }",
        &mut counter,
    );
    assert_eq!(
        r.err(),
        Some(BuildError::LayoutAssumptionViolation {
            metric_name: "M".to_string(),
            violation: LayoutViolation::NoValues { depth: 1 },
        })
    );
}

#[test]
fn the_scope_numbers_run_out() {
    let mut counter = ScopeCounter { next: usize::MAX };
    let r = build("struct M: Counter { \"k\" => { a } }", &mut counter);
    assert_eq!(r.err(), Some(BuildError::ScopeExhausted));
    assert_eq!(counter.next, usize::MAX);
    // Without a metric no number is needed.
    assert!(build("label_enum E { a }", &mut counter).is_ok());
    let mut counter = ScopeCounter { next: usize::MAX - 1 };
    assert!(build("struct M: Counter { \"k\" => { a } }", &mut counter).is_ok());
    assert_eq!(counter.next, usize::MAX);
}

#[test]
fn text_is_expanded_in_one_step() {
    let mut counter = ScopeCounter::new();
    let tokens = make_auto_flush_static_metric(
        "pub struct Lhrs: LocalIntCounter { \"product\" => { foo, bar } }",
        &mut counter,
    )
    .unwrap();
    let same = build(
        "pub struct Lhrs: LocalIntCounter { \"product\" => { foo, bar } }",
        &mut ScopeCounter::new(),
    )
    .unwrap();
    assert_eq!(flatten(tokens), flatten(same));
    assert_eq!(counter.next, 1);
}

#[test]
fn expansion_stops_at_the_first_stage_that_fails() {
    let mut counter = ScopeCounter { next: 4 };
    assert_eq!(
        make_auto_flush_static_metric("struct M: Counter { \"k\" => }", &mut counter).err(),
        Some(ExpandError::Parse(ParseError {
            offset: 27,
            found: "}".to_string(),
            expected: Expected::Values,
        }))
    );
    assert_eq!(
        make_auto_flush_static_metric("struct M: Counter { \"k\" => E }", &mut counter).err(),
        Some(ExpandError::Build(BuildError::UndefinedEnumError { enum_name: "E".to_string() }))
    );
    assert_eq!(counter.next, 4);
    assert_eq!(
        make_auto_flush_static_metric("struct M: Counter { \"k\" => E }", &mut counter)
            .unwrap_err()
            .message(),
        "Label enum `E` is undefined."
    );
    assert_eq!(
        make_auto_flush_static_metric("struct", &mut counter).unwrap_err().message(),
        "unexpected end of input at offset 6: expected a name"
    );
}
