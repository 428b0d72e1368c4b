//! End-to-end scenarios for the bundle validator.

use mev_share::constants::MAX_BODY_SIZE;
use mev_share::types::{
    Bundle, BundleBodyItem, BundleInclusion, BundlePrivacy, BundleValidity, Hint,
    RefundConfig, RefundConstraint, TxHash,
};
use mev_share::validation::{validate_bundle, BundleValidationError, NoopSigner};

const RAW_TX: &str = "f8578001825208808862b48d94c41aa714840102030426a0b0359c4b83b06eefabe42e58bc16d7ae87425235fb9ef16f6767b9c24161b5dca0411a61888f6230432bb69597630c8e24865b9be873b403a365144e4a8b2a9b1c";
const RAW_TX_2: &str = "f8578001825208808862b48d94c41aa715840102030426a0b0359c4b83b06eefabe42e58bc16d7ae87425235fb9ef16f6767b9c24161b5dca0411a61888f6230432bb69597630c8e24865b9be873b403a365144e4a8b2a9b1c";

fn hex_to_bytes(s: &str) -> Vec<u8> {
    let chars: Vec<u8> = s.as_bytes().to_vec();
    let mut out = Vec::new();
    let mut i = 0;
    while i + 1 < chars.len() {
        let hi = (chars[i] as char).to_digit(16).unwrap() as u8;
        let lo = (chars[i + 1] as char).to_digit(16).unwrap() as u8;
        out.push(hi * 16 + lo);
        i += 2;
    }
    out
}

fn tx_hash(raw: &[u8]) -> TxHash {
    let rlp = ethers_core::utils::rlp::Rlp::new(raw);
    let (tx, sig) =
        ethers_core::types::transaction::eip2718::TypedTransaction::decode_signed(&rlp).unwrap();
    tx.hash(&sig).to_fixed_bytes()
}

fn keccak_concat(hashes: &[TxHash]) -> TxHash {
    let mut buf = Vec::new();
    for h in hashes {
        buf.extend_from_slice(h);
    }
    ethers_core::utils::keccak256(&buf)
}

fn empty_validity() -> BundleValidity {
    BundleValidity { refund: vec![], refund_config: vec![] }
}

fn base_bundle(body: Vec<BundleBodyItem>) -> Bundle {
    Bundle {
        version: "beta-1".to_string(),
        inclusion: BundleInclusion { block: 10, max_block: Some(20) },
        body,
        validity: empty_validity(),
        privacy: None,
        metadata: Some("scratch".to_string()),
    }
}

fn tx_item() -> BundleBodyItem {
    BundleBodyItem::Tx(hex_to_bytes(RAW_TX))
}

fn tx_item_2() -> BundleBodyItem {
    BundleBodyItem::Tx(hex_to_bytes(RAW_TX_2))
}

const CBN: u64 = 15;

#[test]
fn too_deep_nested_bundle() {
    let grandchild = base_bundle(vec![tx_item()]);
    let child = base_bundle(vec![BundleBodyItem::Bundle(grandchild)]);
    let mut root = base_bundle(vec![BundleBodyItem::Bundle(child)]);
    let r = validate_bundle(0, &mut root, CBN, &NoopSigner {});
    assert!(matches!(r, Err(BundleValidationError::BundleTooDeep)));
}

#[test]
fn too_deep_level_param() {
    let mut b = base_bundle(vec![tx_item()]);
    let r = validate_bundle(2, &mut b, CBN, &NoopSigner {});
    assert!(matches!(r, Err(BundleValidationError::BundleTooDeep)));
}

#[test]
fn empty_body_rejected() {
    let mut b = base_bundle(vec![]);
    let r = validate_bundle(0, &mut b, CBN, &NoopSigner {});
    assert!(matches!(r, Err(BundleValidationError::InvalidBundleBodySize)));
}

#[test]
fn sole_unmatched_rejected() {
    let mut b = base_bundle(vec![BundleBodyItem::Hash([7u8; 32])]);
    let r = validate_bundle(0, &mut b, CBN, &NoopSigner {});
    assert!(matches!(r, Err(BundleValidationError::InvalidBundleBody(_))));
}

#[test]
fn unmatched_not_first_rejected() {
    let mut b = base_bundle(vec![tx_item(), BundleBodyItem::Hash([7u8; 32])]);
    let r = validate_bundle(0, &mut b, CBN, &NoopSigner {});
    assert!(matches!(r, Err(BundleValidationError::InvalidBundleBody(_))));
}

#[test]
fn second_unmatched_rejected() {
    let mut b = base_bundle(
        vec![BundleBodyItem::Hash([7u8; 32]), BundleBodyItem::Hash([8u8; 32]), tx_item()],
    );
    let r = validate_bundle(0, &mut b, CBN, &NoopSigner {});
    assert!(matches!(r, Err(BundleValidationError::InvalidBundleBody(_))));
}

#[test]
fn single_tx_hash_identity() {
    let mut b = base_bundle(vec![tx_item()]);
    let v = validate_bundle(0, &mut b, CBN, &NoopSigner {}).unwrap();
    assert_eq!(v.hash, tx_hash(&hex_to_bytes(RAW_TX)));
    assert_eq!(v.txs, 1);
    assert!(!v.unmatched);
}

#[test]
fn multi_tx_hash_concat() {
    let h1 = tx_hash(&hex_to_bytes(RAW_TX));
    let h2 = tx_hash(&hex_to_bytes(RAW_TX_2));
    let mut b = base_bundle(vec![tx_item(), tx_item_2()]);
    let v = validate_bundle(0, &mut b, CBN, &NoopSigner {}).unwrap();
    assert_eq!(v.hash, keccak_concat(&[h1, h2]));
    assert_eq!(v.txs, 2);
}

#[test]
fn reorder_changes_hash() {
    let mut b1 = base_bundle(vec![tx_item(), tx_item_2()]);
    let mut b2 = base_bundle(vec![tx_item_2(), tx_item()]);
    let v1 = validate_bundle(0, &mut b1, CBN, &NoopSigner {}).unwrap();
    let v2 = validate_bundle(0, &mut b2, CBN, &NoopSigner {}).unwrap();
    assert_ne!(v1.hash, v2.hash);
}

#[test]
fn nested_bundle_hash_composes() {
    let h1 = tx_hash(&hex_to_bytes(RAW_TX));
    let h2 = tx_hash(&hex_to_bytes(RAW_TX_2));
    let child = base_bundle(vec![tx_item_2()]);
    let mut root = base_bundle(vec![tx_item(), BundleBodyItem::Bundle(child)]);
    let v = validate_bundle(0, &mut root, CBN, &NoopSigner {}).unwrap();
    assert_eq!(v.hash, keccak_concat(&[h1, h2]));
    assert_eq!(v.txs, 2);
}

#[test]
fn unsupported_version_rejected() {
    let mut b = base_bundle(vec![tx_item()]);
    b.version = "v2".to_string();
    let r = validate_bundle(0, &mut b, CBN, &NoopSigner {});
    assert!(matches!(r, Err(BundleValidationError::UnsupportedVersion(_))));
}

#[test]
fn version_v01_accepted() {
    let mut b = base_bundle(vec![tx_item()]);
    b.version = "v0.1".to_string();
    assert!(validate_bundle(0, &mut b, CBN, &NoopSigner {}).is_ok());
}

#[test]
fn inclusion_max_below_min_rejected() {
    let mut b = base_bundle(vec![tx_item()]);
    b.inclusion = BundleInclusion { block: 20, max_block: Some(10) };
    let r = validate_bundle(0, &mut b, CBN, &NoopSigner {});
    assert!(matches!(r, Err(BundleValidationError::InvalidInclusion(_))));
}

#[test]
fn inclusion_range_too_wide_rejected() {
    let mut b = base_bundle(vec![tx_item()]);
    b.inclusion = BundleInclusion { block: 10, max_block: Some(41) };
    let r = validate_bundle(0, &mut b, 12, &NoopSigner {});
    assert!(matches!(r, Err(BundleValidationError::InvalidInclusion(_))));
}

#[test]
fn inclusion_not_in_future_rejected() {
    let mut b = base_bundle(vec![tx_item()]);
    let r = validate_bundle(0, &mut b, 20, &NoopSigner {});
    assert!(matches!(r, Err(BundleValidationError::InvalidInclusion(_))));
}

#[test]
fn inclusion_too_far_ahead_rejected() {
    let mut b = base_bundle(vec![tx_item()]);
    b.inclusion = BundleInclusion { block: 100, max_block: Some(105) };
    let r = validate_bundle(0, &mut b, 10, &NoopSigner {});
    assert!(matches!(r, Err(BundleValidationError::InvalidInclusion(_))));
}

#[test]
fn inclusion_zero_max_defaults_to_block() {
    let mut b = base_bundle(vec![tx_item()]);
    b.inclusion = BundleInclusion { block: 10, max_block: Some(0) };
    assert!(validate_bundle(0, &mut b, 9, &NoopSigner {}).is_ok());
}

#[test]
fn body_too_large_rejected() {
    let mut body = Vec::new();
    for _ in 0..(MAX_BODY_SIZE + 1) {
        body.push(tx_item());
    }
    let mut b = base_bundle(body);
    let r = validate_bundle(0, &mut b, CBN, &NoopSigner {});
    assert!(matches!(r, Err(BundleValidationError::InvalidBundleBodySize)));
}

#[test]
fn refund_sum_over_100_rejected() {
    let mut b = base_bundle(vec![tx_item(), tx_item_2()]);
    b.validity.refund = vec![
        RefundConstraint { body_idx: 0, percent: 60 },
        RefundConstraint { body_idx: 1, percent: 50 },
    ];
    let r = validate_bundle(0, &mut b, CBN, &NoopSigner {});
    assert!(matches!(r, Err(BundleValidationError::InvalidBundleConstraints)));
}

#[test]
fn refund_sum_exactly_100_ok() {
    let mut b = base_bundle(vec![tx_item(), tx_item_2()]);
    b.validity.refund = vec![
        RefundConstraint { body_idx: 0, percent: 60 },
        RefundConstraint { body_idx: 1, percent: 40 },
    ];
    assert!(validate_bundle(0, &mut b, CBN, &NoopSigner {}).is_ok());
}

#[test]
fn refund_duplicate_idx_rejected() {
    let mut b = base_bundle(vec![tx_item(), tx_item_2()]);
    b.validity.refund = vec![
        RefundConstraint { body_idx: 0, percent: 30 },
        RefundConstraint { body_idx: 0, percent: 30 },
    ];
    let r = validate_bundle(0, &mut b, CBN, &NoopSigner {});
    assert!(matches!(r, Err(BundleValidationError::InvalidBundleConstraints)));
}

#[test]
fn refund_idx_out_of_range_rejected() {
    let mut b = base_bundle(vec![tx_item()]);
    b.validity.refund = vec![RefundConstraint { body_idx: 5, percent: 10 }];
    let r = validate_bundle(0, &mut b, CBN, &NoopSigner {});
    assert!(matches!(r, Err(BundleValidationError::InvalidBundleConstraints)));
}

#[test]
fn refund_percent_over_100_rejected() {
    let mut b = base_bundle(vec![tx_item()]);
    b.validity.refund = vec![RefundConstraint { body_idx: 0, percent: 150 }];
    let r = validate_bundle(0, &mut b, CBN, &NoopSigner {});
    assert!(matches!(r, Err(BundleValidationError::InvalidBundleConstraints)));
}

#[test]
fn refund_config_over_100_rejected() {
    let mut b = base_bundle(vec![tx_item()]);
    b.validity.refund_config =
        vec![RefundConfig { percent: 60 }, RefundConfig { percent: 50 }];
    let r = validate_bundle(0, &mut b, CBN, &NoopSigner {});
    assert!(matches!(r, Err(BundleValidationError::InvalidBundleConstraints)));
}

#[test]
fn unmatched_with_refund_rejected() {
    let mut b = base_bundle(vec![BundleBodyItem::Hash([7u8; 32]), tx_item()]);
    b.validity.refund = vec![RefundConstraint { body_idx: 1, percent: 10 }];
    let r = validate_bundle(0, &mut b, CBN, &NoopSigner {});
    assert!(matches!(r, Err(BundleValidationError::InvalidBundleConstraints)));
}

#[test]
fn unmatched_with_hints_rejected() {
    let mut b = base_bundle(vec![BundleBodyItem::Hash([7u8; 32]), tx_item()]);
    b.privacy = Some(BundlePrivacy {
        hints: vec![Hint::Calldata],
        builders: vec![],
        want_refund: 0,
    });
    let r = validate_bundle(0, &mut b, CBN, &NoopSigner {});
    assert!(matches!(r, Err(BundleValidationError::InvalidBundlePrivacy)));
}

#[test]
fn want_refund_150_rejected() {
    let mut b = base_bundle(vec![tx_item()]);
    b.privacy = Some(BundlePrivacy { hints: vec![], builders: vec![], want_refund: 150 });
    let r = validate_bundle(0, &mut b, CBN, &NoopSigner {});
    assert!(matches!(r, Err(BundleValidationError::InvalidBundlePrivacy)));
}

#[test]
fn want_refund_50_ok() {
    let mut b = base_bundle(vec![tx_item()]);
    b.privacy = Some(BundlePrivacy { hints: vec![], builders: vec![], want_refund: 50 });
    assert!(validate_bundle(0, &mut b, CBN, &NoopSigner {}).is_ok());
}

#[test]
fn decode_truncated_rejected() {
    let raw = hex_to_bytes(RAW_TX);
    let mut b = base_bundle(vec![BundleBodyItem::Tx(raw[..20].to_vec())]);
    let r = validate_bundle(0, &mut b, CBN, &NoopSigner {});
    assert!(matches!(r, Err(BundleValidationError::InvalidBundleBody(_))));
}

#[test]
fn decode_garbage_rejected() {
    let mut b = base_bundle(vec![BundleBodyItem::Tx(vec![0xff; 10])]);
    let r = validate_bundle(0, &mut b, CBN, &NoopSigner {});
    assert!(matches!(r, Err(BundleValidationError::InvalidBundleBody(_))));
}

#[test]
fn metadata_cleared() {
    let mut b = base_bundle(vec![tx_item()]);
    assert!(b.metadata.is_some());
    validate_bundle(0, &mut b, CBN, &NoopSigner {}).unwrap();
    assert!(b.metadata.is_none());
}

#[test]
fn revalidation_stable() {
    let mut b = base_bundle(vec![tx_item(), tx_item_2()]);
    let v1 = validate_bundle(0, &mut b, CBN, &NoopSigner {}).unwrap();
    let v2 = validate_bundle(0, &mut b, CBN, &NoopSigner {}).unwrap();
    assert_eq!(v1.hash, v2.hash);
    assert_eq!(v1.txs, v2.txs);
    assert_eq!(v1.unmatched, v2.unmatched);
}

#[test]
fn hash_hint_appended() {
    let mut b = base_bundle(vec![tx_item()]);
    b.privacy = Some(BundlePrivacy {
        hints: vec![Hint::Calldata],
        builders: vec![],
        want_refund: 0,
    });
    validate_bundle(0, &mut b, CBN, &NoopSigner {}).unwrap();
    let hints = b.privacy.unwrap().hints;
    assert_eq!(hints, vec![Hint::Calldata, Hint::Hash]);
}

#[test]
fn inclusion_narrowed_by_nested() {
    let mut child = base_bundle(vec![tx_item_2()]);
    child.inclusion = BundleInclusion { block: 15, max_block: Some(25) };
    let mut root = base_bundle(vec![tx_item(), BundleBodyItem::Bundle(child)]);
    validate_bundle(0, &mut root, 16, &NoopSigner {}).unwrap();
    assert_eq!(root.inclusion.block, 15);
    assert_eq!(root.inclusion.max_block, Some(20));
}

#[test]
fn nested_disjoint_rejected() {
    let mut child = base_bundle(vec![tx_item_2()]);
    child.inclusion = BundleInclusion { block: 21, max_block: Some(30) };
    let mut root = base_bundle(vec![tx_item(), BundleBodyItem::Bundle(child)]);
    let r = validate_bundle(0, &mut root, CBN, &NoopSigner {});
    assert!(matches!(r, Err(BundleValidationError::InvalidInclusion(_))));
}

#[test]
fn unmatched_flag_reported() {
    let h: TxHash = [7u8; 32];
    let h1 = tx_hash(&hex_to_bytes(RAW_TX));
    let mut b = base_bundle(vec![BundleBodyItem::Hash(h), tx_item()]);
    let v = validate_bundle(0, &mut b, CBN, &NoopSigner {}).unwrap();
    assert!(v.unmatched);
    assert_eq!(v.txs, 1);
    assert_eq!(v.hash, keccak_concat(&[h, h1]));
}

#[test]
fn revalidation_with_nested_stable() {
    let mut child = base_bundle(vec![tx_item_2()]);
    child.inclusion = BundleInclusion { block: 4, max_block: None };
    let mut root = base_bundle(vec![tx_item(), BundleBodyItem::Bundle(child)]);
    root.inclusion = BundleInclusion { block: 0, max_block: Some(10) };
    let v1 = validate_bundle(0, &mut root, 3, &NoopSigner {}).unwrap();
    assert_eq!(root.inclusion.block, 4);
    assert_eq!(root.inclusion.max_block, Some(4));
    let v2 = validate_bundle(0, &mut root, 3, &NoopSigner {}).unwrap();
    assert_eq!(v1.hash, v2.hash);
    assert_eq!(v1.txs, v2.txs);
    assert_eq!(v1.unmatched, v2.unmatched);
}

#[test]
fn error_messages() {
    assert_eq!(BundleValidationError::BundleTooDeep.message(), "bundle too deep");
    assert_eq!(
        BundleValidationError::UnsupportedVersion("v9".to_string()).message(),
        "unsupported bundle version: v9"
    );
    assert_eq!(
        BundleValidationError::InvalidBundleConstraints.message(),
        "invalid bundle constraints"
    );
}

#[test]
fn nested_unmatched_rejected() {
    let child = base_bundle(vec![BundleBodyItem::Hash([7u8; 32]), tx_item_2()]);
    let mut root = base_bundle(vec![tx_item(), BundleBodyItem::Bundle(child)]);
    let r = validate_bundle(0, &mut root, CBN, &NoopSigner {});
    assert!(matches!(r, Err(BundleValidationError::InvalidBundleBody(_))));
}
