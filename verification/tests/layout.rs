use static_metric::offsets::{LayoutViolation, OffsetTable};

#[test]
fn offsets_count_the_leaves_below_a_field() {
    // 2 products, 4 methods, 2 versions.
    let table = OffsetTable::new(vec![2, 4, 2]).unwrap();
    assert_eq!(table.depth(), 3);
    assert_eq!(table.leaves(), 16);
    assert_eq!(table.count(1), Some(4));
    assert_eq!(table.count(3), None);
    assert_eq!(table.offset(0, 0), Some(0));
    assert_eq!(table.offset(0, 1), Some(8));
    assert_eq!(table.offset(1, 3), Some(6));
    assert_eq!(table.offset(2, 1), Some(1));
    assert_eq!(table.offset(1, 2), Some(4));
}

#[test]
fn offset_of_a_field_that_is_not_there_is_none() {
    let table = OffsetTable::new(vec![2, 4, 2]).unwrap();
    assert_eq!(table.offset(0, 2), None);
    assert_eq!(table.offset(3, 0), None);
}

#[test]
fn a_path_leads_to_the_sum_of_its_offsets() {
    let table = OffsetTable::new(vec![2, 4, 2]).unwrap();
    assert_eq!(table.resolve(&vec![0, 0, 0]), Some(0));
    assert_eq!(table.resolve(&vec![1, 3, 1]), Some(15));
    assert_eq!(table.resolve(&vec![1, 0, 1]), Some(9));
    assert_eq!(table.resolve(&vec![0, 2, 1]), Some(5));
}

#[test]
fn a_path_that_picks_no_field_leads_nowhere() {
    let table = OffsetTable::new(vec![2, 4, 2]).unwrap();
    assert_eq!(table.resolve(&vec![2, 0, 0]), None);
    assert_eq!(table.resolve(&vec![0, 4, 0]), None);
    assert_eq!(table.resolve(&vec![0, 0]), None);
    assert_eq!(table.resolve(&vec![0, 0, 0, 0]), None);
}

#[test]
fn different_paths_lead_to_different_leaves() {
    let table = OffsetTable::new(vec![3, 2, 5]).unwrap();
    let mut seen = vec![false; table.leaves()];
    for a in 0..3 {
        for b in 0..2 {
            for c in 0..5 {
                let leaf = table.resolve(&vec![a, b, c]).unwrap();
                assert!(leaf < 30);
                assert!(!seen[leaf]);
                seen[leaf] = true;
            }
        }
    }
    assert!(seen.into_iter().all(|s| s));
}

#[test]
fn a_single_label_is_laid_out_by_its_places() {
    let table = OffsetTable::new(vec![2]).unwrap();
    assert_eq!(table.leaves(), 2);
    assert_eq!(table.offset(0, 1), Some(1));
    assert_eq!(table.resolve(&vec![1]), Some(1));
}

#[test]
fn no_label_has_no_layout() {
    assert_eq!(OffsetTable::new(vec![]).err(), Some(LayoutViolation::NoLabels));
}

#[test]
fn a_label_without_values_has_no_layout() {
    assert_eq!(OffsetTable::new(vec![2, 0, 3]).err(), Some(LayoutViolation::NoValues { depth: 1 }));
    // The first such label is named.
    assert_eq!(OffsetTable::new(vec![0, 0]).err(), Some(LayoutViolation::NoValues { depth: 0 }));
}

#[test]
fn too_many_leaves_have_no_layout() {
    assert_eq!(
        OffsetTable::new(vec![usize::MAX, 2]).err(),
        Some(LayoutViolation::TooManyLeaves)
    );
    assert_eq!(OffsetTable::new(vec![usize::MAX, 1]).unwrap().leaves(), usize::MAX);
    // A label without values is found before the leaves are counted.
    assert_eq!(
        OffsetTable::new(vec![usize::MAX, 2, 0]).err(),
        Some(LayoutViolation::NoValues { depth: 2 })
    );
}

#[test]
fn the_offset_chain_of_a_path_holds_the_offset_of_each_field() {
    let table = OffsetTable::new(vec![2, 4, 2]).unwrap();
    assert_eq!(table.offset_chain(&vec![0, 0, 0]), Some(vec![0, 0, 0]));
    assert_eq!(table.offset_chain(&vec![1, 3, 1]), Some(vec![8, 6, 1]));
    assert_eq!(table.offset_chain(&vec![1, 4, 1]), None);
    assert_eq!(table.offset_chain(&vec![1, 3]), None);
}
