//! Tests for the inclusion-interval and privacy-builder mergers.

use mev_share::merge::{merge_inclusion_intervals, merge_privacy_builders};
use mev_share::types::{BundleInclusion, BundlePrivacy};

#[test]
fn merge_overlap_narrows() {
    let mut top = BundleInclusion { block: 10, max_block: Some(20) };
    let inner = BundleInclusion { block: 15, max_block: Some(25) };
    assert!(merge_inclusion_intervals(&mut top, &inner).is_ok());
    assert_eq!(top.block, 15);
    assert_eq!(top.max_block, Some(20));
}

#[test]
fn merge_inner_inside_narrows_max() {
    let mut top = BundleInclusion { block: 10, max_block: Some(20) };
    let inner = BundleInclusion { block: 12, max_block: Some(18) };
    assert!(merge_inclusion_intervals(&mut top, &inner).is_ok());
    assert_eq!(top.block, 12);
    assert_eq!(top.max_block, Some(18));
}

#[test]
fn merge_disjoint_fails() {
    let mut top = BundleInclusion { block: 10, max_block: Some(20) };
    let inner = BundleInclusion { block: 21, max_block: Some(30) };
    assert!(merge_inclusion_intervals(&mut top, &inner).is_err());
    assert_eq!(top.block, 10);
    assert_eq!(top.max_block, Some(20));
}

#[test]
fn merge_absent_max_defaults_to_block() {
    let mut top = BundleInclusion { block: 10, max_block: None };
    let inner = BundleInclusion { block: 10, max_block: Some(15) };
    assert!(merge_inclusion_intervals(&mut top, &inner).is_ok());
    assert_eq!(top.block, 10);
    assert_eq!(top.max_block, Some(10));
}

#[test]
fn merge_absent_max_disjoint_fails() {
    let mut top = BundleInclusion { block: 10, max_block: None };
    let inner = BundleInclusion { block: 15, max_block: Some(25) };
    assert!(merge_inclusion_intervals(&mut top, &inner).is_err());
    assert_eq!(top.max_block, None);
}

#[test]
fn merge_empty_child_range_fails_first_time() {
    let mut top = BundleInclusion { block: 3, max_block: Some(12) };
    let inner = BundleInclusion { block: 10, max_block: Some(5) };
    assert!(merge_inclusion_intervals(&mut top, &inner).is_err());
    assert_eq!(top.block, 3);
    assert_eq!(top.max_block, Some(12));
}

#[test]
fn merge_is_idempotent_once_narrowed() {
    let mut top = BundleInclusion { block: 10, max_block: Some(20) };
    let inner = BundleInclusion { block: 15, max_block: Some(25) };
    assert!(merge_inclusion_intervals(&mut top, &inner).is_ok());
    let narrowed = (top.block, top.max_block);
    assert!(merge_inclusion_intervals(&mut top, &inner).is_ok());
    assert_eq!((top.block, top.max_block), narrowed);
}

fn privacy_with_builders(builders: Vec<&str>) -> BundlePrivacy {
    BundlePrivacy {
        hints: vec![],
        builders: builders.into_iter().map(|b| b.to_string()).collect(),
        want_refund: 0,
    }
}

#[test]
fn privacy_merge_intersection() {
    let mut top = Some(privacy_with_builders(vec!["a", "b", "c"]));
    let inner = Some(privacy_with_builders(vec!["b", "c", "d"]));
    merge_privacy_builders(&mut top, &inner);
    assert_eq!(top.unwrap().builders, vec!["b".to_string(), "c".to_string()]);
}

#[test]
fn privacy_merge_dedup() {
    let mut top = Some(privacy_with_builders(vec!["a", "a", "b"]));
    let inner = Some(privacy_with_builders(vec!["a", "b"]));
    merge_privacy_builders(&mut top, &inner);
    assert_eq!(top.unwrap().builders, vec!["a".to_string(), "b".to_string()]);
}

#[test]
fn privacy_merge_child_none_clears() {
    let mut top = Some(privacy_with_builders(vec!["a", "b"]));
    merge_privacy_builders(&mut top, &None);
    assert_eq!(top.unwrap().builders, Vec::<String>::new());
}

#[test]
fn privacy_merge_parent_none_noop() {
    let mut top: Option<BundlePrivacy> = None;
    let inner = Some(privacy_with_builders(vec!["a"]));
    merge_privacy_builders(&mut top, &inner);
    assert!(top.is_none());
}
