use prometheus::local::LocalHistogram;
use prometheus::{HistogramOpts, HistogramVec, IntCounterVec, Opts};
use static_metric::ast::{EnumTable, StaticMetricMacroBodyItem};
use static_metric::local::{Delegator, LocalRoot, TouchError};
use static_metric::offsets::OffsetTable;
use static_metric::parser::parse;
use static_metric::plan::MetricPlan;

/// The flush interval: one time unit.
const INTERVAL: u64 = 1;

fn names(path: &[&str]) -> Vec<String> {
    path.iter().map(|s| s.to_string()).collect()
}

#[test]
fn a_counter_is_seen_after_a_flush_only() {
    let body =
        parse("pub struct Lhrs: LocalIntCounter { \"product\" => { foo, bar } }").unwrap();
    let metric = match &body.items[0] {
        StaticMetricMacroBodyItem::Metric(m) => m,
        _ => unreachable!(),
    };
    let plan = MetricPlan::new(metric, &EnumTable::new()).unwrap();
    let foo = plan.offsets.resolve(&plan.path_of(&names(&["foo"])).unwrap()).unwrap();
    let bar = plan.offsets.resolve(&plan.path_of(&names(&["bar"])).unwrap()).unwrap();
    assert_eq!((foo, bar), (0, 1));

    let shared = IntCounterVec::new(Opts::new("http_requests", "help"), &["product"]).unwrap();
    let labels = ["foo", "bar"];
    let merge = |batch: Vec<u64>| {
        for (leaf, amount) in batch.into_iter().enumerate() {
            shared.with_label_values(&[labels[leaf]]).inc_by(amount);
        }
    };

    let mut root = LocalRoot::new(OffsetTable::new(plan.counts()).unwrap(), 0);
    for _ in 0..3 {
        // No time has passed since the root was made.
        assert_eq!(root.inc_by(foo, 1, 0, INTERVAL), Ok(None));
    }
    assert_eq!(shared.with_label_values(&["foo"]).get(), 0);
    assert_eq!(shared.with_label_values(&["bar"]).get(), 0);
    assert_eq!(root.pending(foo), Some(3));

    merge(root.flush());
    assert_eq!(shared.with_label_values(&["foo"]).get(), 3);
    assert_eq!(shared.with_label_values(&["bar"]).get(), 0);
    assert_eq!(root.pending(foo), Some(0));
    assert_eq!(root.pending(bar), Some(0));
}

#[test]
fn a_counter_is_seen_once_the_interval_has_passed() {
    let shared = IntCounterVec::new(Opts::new("http_requests", "help"), &["product"]).unwrap();
    let labels = ["foo", "bar"];
    let mut root = LocalRoot::new(OffsetTable::new(vec![2]).unwrap(), 10);
    assert_eq!(root.inc_by(0, 1, 10, INTERVAL), Ok(None));
    assert_eq!(root.inc_by(0, 1, 10, INTERVAL), Ok(None));
    assert_eq!(shared.with_label_values(&["foo"]).get(), 0);
    // Two time units later one more touch flushes, itself included.
    let batch = root.inc_by(0, 1, 12, INTERVAL).unwrap().unwrap();
    assert_eq!(batch, vec![3, 0]);
    for (leaf, amount) in batch.into_iter().enumerate() {
        shared.with_label_values(&[labels[leaf]]).inc_by(amount);
    }
    assert_eq!(shared.with_label_values(&["foo"]).get(), 3);
    assert_eq!(shared.with_label_values(&["bar"]).get(), 0);
    assert_eq!(root.pending(0), Some(0));
    // The interval starts again.
    assert_eq!(root.inc_by(1, 5, 12, INTERVAL), Ok(None));
    assert_eq!(root.inc_by(1, 5, 13, INTERVAL), Ok(Some(vec![0, 10])));
}

#[test]
fn a_histogram_is_seen_once_the_interval_has_passed() {
    let text = "
        pub label_enum EnumFooBar { foo, bar }
        pub label_enum EnumMethods { post, get, put, delete }
        pub struct Lhrs: LocalHistogram {
            \"product\" => EnumFooBar,
            \"method\" => EnumMethods,
            \"version\" => { http1: \"HTTP/1\", http2: \"HTTP/2\" },
        }";
    let body = parse(text).unwrap();
    let mut enums = EnumTable::new();
    let mut metric = None;
    for item in &body.items {
        match item {
            StaticMetricMacroBodyItem::Enum(e) => enums.insert(e),
            StaticMetricMacroBodyItem::Metric(m) => metric = Some(m),
        }
    }
    let plan = MetricPlan::new(metric.unwrap(), &enums).unwrap();
    assert_eq!(plan.counts(), vec![2, 4, 2]);

    let shared = HistogramVec::new(
        HistogramOpts::new("http_requests", "help"),
        &["product", "method", "version"],
    )
    .unwrap();
    // One local histogram at each leaf, in the order of the leaves.
    let mut leaves: Vec<LocalHistogram> = Vec::new();
    for product in plan.labels[0].values {
        for method in plan.labels[1].values {
            for version in plan.labels[2].values {
                let path = plan
                    .path_of(&names(&[
                        product.name.as_str(),
                        method.name.as_str(),
                        version.name.as_str(),
                    ]))
                    .unwrap();
                assert_eq!(plan.offsets.resolve(&path), Some(leaves.len()));
                leaves.push(
                    shared
                        .with_label_values(&[&product.value, &method.value, &version.value])
                        .local(),
                );
            }
        }
    }
    let seen = || shared.with_label_values(&["foo", "post", "HTTP/1"]);

    let mut root = LocalRoot::new(OffsetTable::new(plan.counts()).unwrap(), 0);
    let leaf = plan
        .offsets
        .resolve(&plan.path_of(&names(&["foo", "post", "http1"])).unwrap())
        .unwrap();
    assert_eq!(leaf, 0);
    let mut observe = |value: f64, now: u64| {
        leaves[leaf].observe(value);
        if let Some(batch) = root.inc_by(leaf, 1, now, INTERVAL).unwrap() {
            for local in &leaves {
                local.flush();
            }
            Some(batch[leaf])
        } else {
            None
        }
    };
    assert_eq!(observe(1.0, 0), None);
    assert_eq!(observe(1.0, 0), None);
    assert_eq!(seen().get_sample_count(), 0);

    assert_eq!(observe(1.0, 2), Some(3));
    assert_eq!(seen().get_sample_count(), 3);
    assert!(seen().get_sample_sum() > 2.9);
    assert!(seen().get_sample_sum() < 3.1);
    assert_eq!(shared.with_label_values(&["bar", "post", "HTTP/1"]).get_sample_count(), 0);
}

#[test]
fn increments_stay_local_until_the_interval_has_passed() {
    let mut root = LocalRoot::new(OffsetTable::new(vec![2, 2]).unwrap(), 100);
    for now in [100, 100, 100, 100] {
        assert_eq!(root.inc_by(3, 2, now, 5), Ok(None));
    }
    assert_eq!(root.inc_by(3, 2, 104, 5), Ok(None));
    assert_eq!(root.pending(3), Some(10));
    assert_eq!(root.inc_by(0, 1, 105, 5), Ok(Some(vec![1, 0, 0, 10])));
}

#[test]
fn a_clock_that_goes_back_flushes_nothing() {
    let mut root = LocalRoot::new(OffsetTable::new(vec![1]).unwrap(), 100);
    assert_eq!(root.inc_by(0, 1, 50, 1), Ok(None));
    assert_eq!(root.inc_by(0, 1, 0, 0), Ok(None));
    // With no interval, every touch in time flushes.
    assert_eq!(root.inc_by(0, 1, 100, 0), Ok(Some(vec![3])));
}

#[test]
fn a_forced_flush_hands_over_exactly_what_was_added() {
    let mut root = LocalRoot::new(OffsetTable::new(vec![3]).unwrap(), 0);
    let n = 1000;
    for _ in 0..n {
        assert_eq!(root.inc_by(1, 1, 0, 1), Ok(None));
    }
    assert_eq!(root.flush(), vec![0, n, 0]);
    assert_eq!(root.flush(), vec![0, 0, 0]);
    assert_eq!(root.pending(1), Some(0));
    // A forced flush does not move the time of the last flush.
    assert_eq!(root.inc_by(1, 1, 1, 1), Ok(Some(vec![0, 1, 0])));
}

#[test]
fn a_path_leads_to_the_same_leaf_whatever_happens_between() {
    let mut root = LocalRoot::new(OffsetTable::new(vec![2, 3]).unwrap(), 0);
    let path = vec![1, 2];
    let leaf = root.resolve(&path).unwrap();
    assert_eq!(leaf, 5);
    assert_eq!(root.leaves(), 6);
    // The accessor is made once.
    let delegator = root.delegator(&path).unwrap();
    assert_eq!(delegator, Delegator { offsets: vec![3, 2] });
    for now in 0..50 {
        root.inc_by(leaf, 1, now / 10, 2).unwrap();
        if now % 7 == 0 {
            root.flush();
        }
        assert_eq!(root.get_counter(&delegator), Some(leaf));
        assert_eq!(root.resolve(&path), Some(leaf));
        assert_eq!(root.leaves(), 6);
    }
    assert_eq!(root.resolve(&vec![2, 0]), None);
    assert_eq!(root.delegator(&vec![2, 0]), None);
}

#[test]
fn an_accessor_adds_its_offsets_up() {
    let root = LocalRoot::new(OffsetTable::new(vec![2, 4, 2]).unwrap(), 0);
    assert_eq!(root.delegator(&vec![1, 3, 1]), Some(Delegator { offsets: vec![8, 6, 1] }));
    assert_eq!(root.get_counter(&Delegator { offsets: vec![8, 6, 1] }), Some(15));
    assert_eq!(root.get_counter(&Delegator { offsets: vec![0, 0, 0] }), Some(0));
    assert_eq!(root.get_counter(&Delegator { offsets: vec![] }), Some(0));
    // An accessor of another tree may lead nowhere.
    assert_eq!(root.get_counter(&Delegator { offsets: vec![8, 8] }), None);
    assert_eq!(root.get_counter(&Delegator { offsets: vec![usize::MAX, 1] }), None);
}

#[test]
fn a_touch_of_no_leaf_and_a_touch_too_large_are_refused() {
    let mut root = LocalRoot::new(OffsetTable::new(vec![2]).unwrap(), 0);
    assert_eq!(root.inc_by(2, 1, 0, 1), Err(TouchError::NoSuchLeaf));
    assert_eq!(root.pending(2), None);
    assert_eq!(root.inc_by(0, u64::MAX, 0, 1), Ok(None));
    assert_eq!(root.inc_by(0, 1, 5, 1), Err(TouchError::Overflow));
    // The refused touch changed nothing, not even the time of the flush.
    assert_eq!(root.pending(0), Some(u64::MAX));
    assert_eq!(root.inc_by(1, 1, 5, 1), Ok(Some(vec![u64::MAX, 1])));
}
