//! Tests for the transaction decoder wrapper and the canonical hash.

use mev_share::hashing::{compute_bundle_hash, keccak256};
use mev_share::tx::decode_signed_tx;
use mev_share::types::TxHash;

const RAW_TX: &str = "f8578001825208808862b48d94c41aa714840102030426a0b0359c4b83b06eefabe42e58bc16d7ae87425235fb9ef16f6767b9c24161b5dca0411a61888f6230432bb69597630c8e24865b9be873b403a365144e4a8b2a9b1c";

fn hex_to_bytes(s: &str) -> Vec<u8> {
    let chars: Vec<u8> = s.as_bytes().to_vec();
    let mut out = Vec::new();
    let mut i = 0;
    while i + 1 < chars.len() {
        let hi = (chars[i] as char).to_digit(16).unwrap() as u8;
        let lo = (chars[i + 1] as char).to_digit(16).unwrap() as u8;
        out.push(hi * 16 + lo);
        i += 2;
    }
    out
}

#[test]
fn can_decode_signed_tx() {
    let raw = hex_to_bytes(RAW_TX);
    let h = decode_signed_tx(&raw).unwrap();

    let rlp = ethers_core::utils::rlp::Rlp::new(raw.as_slice());
    let (tx, sig) =
        ethers_core::types::transaction::eip2718::TypedTransaction::decode_signed(&rlp).unwrap();
    assert_eq!(h, tx.hash(&sig).to_fixed_bytes());
    assert_ne!(&h[..], &raw[..32]);

    let expected_from: ethers_core::types::H160 =
        "0x1d7f6c55cc3dabbdaa14ccf83b7d8ecef9bb4412".parse().unwrap();
    assert_eq!(tx.from(), Some(&expected_from));
    assert!(tx.to().is_none());
}

#[test]
fn decode_rejects_truncated() {
    let raw = hex_to_bytes(RAW_TX);
    assert!(decode_signed_tx(&raw[..raw.len() / 2]).is_err());
}

#[test]
fn decode_rejects_empty() {
    assert!(decode_signed_tx(&[]).is_err());
}

#[test]
fn compute_single_identity() {
    let h: TxHash = [3u8; 32];
    assert_eq!(compute_bundle_hash(&vec![h]), h);
}

#[test]
fn compute_concat_keccak() {
    let h1: TxHash = [1u8; 32];
    let h2: TxHash = [2u8; 32];
    let mut concat = Vec::new();
    concat.extend_from_slice(&h1);
    concat.extend_from_slice(&h2);
    let expected = ethers_core::utils::keccak256(&concat);
    assert_eq!(compute_bundle_hash(&vec![h1, h2]), expected);
}

#[test]
fn keccak_wrapper_matches_reference() {
    let data = b"mev-share".to_vec();
    assert_eq!(keccak256(&data), ethers_core::utils::keccak256(&data));
    assert_ne!(&keccak256(&data)[..9], &data[..]);
}
