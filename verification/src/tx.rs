//! Recovering a transaction's canonical hash from raw signed bytes.
//!
//! A body element that carries raw transaction bytes contributes the hash of
//! the decoded signed transaction to the bundle's hash chain. Decoding and
//! hashing are done by `ethers-core`; the library only relies on the fact
//! that both are deterministic functions of the byte string.

use ethers_core::types::transaction::eip2718::TypedTransaction;
use vstd::prelude::*;

verus! {

/// Whether `raw` is a signed-transaction byte string the decoder below
/// accepts: a well-formed RLP-encoded, EIP-2718-typed envelope whose
/// signature `v` is one the transaction type can carry.
pub uninterp spec fn tx_decodable(raw: Seq<u8>) -> bool;

/// The canonical hash of the signed transaction encoded by `raw`, for a
/// `raw` that decodes. The hash is a fixed function of the byte string
/// alone: the decoder and the hash ignore everything else.
pub uninterp spec fn tx_hash_of(raw: Seq<u8>) -> Seq<u8>;

/// Decode a raw signed transaction and return the hash of the decoded
/// transaction together with its signature, or a message when the bytes
/// are malformed, truncated, or of an unsupported type.
///
/// Relies on `ethers_core::types::transaction::eip2718::TypedTransaction`:
/// `decode_signed` parses the byte string (returning an error on malformed
/// input, never panicking), and `hash` computes
/// `keccak256(rlp_signed(signature))` of the decoded transaction, 32
/// bytes. Both depend on the byte string alone. For the typed (non-legacy)
/// envelopes, `rlp_signed` re-derives the signature's parity with
/// `normalize_v`, whose `v - chain_id * 2 - 35` is unchecked `u64`
/// arithmetic; the guard below counts a decoded `v` below that floor (and
/// a chain id so large the floor itself overflows) as a decode failure, so
/// the call never reaches the underflow.
#[verifier::external_body]
pub fn decode_signed_tx(signed_tx_raw: &[u8]) -> (r: Result<crate::types::TxHash, String>)
    ensures
        r is Ok <==> tx_decodable(signed_tx_raw@),
        r matches Ok(h) ==> h@ == tx_hash_of(signed_tx_raw@),
{
    let rlp = ethers_core::utils::rlp::Rlp::new(signed_tx_raw);
    match TypedTransaction::decode_signed(&rlp) {
        Ok((signed_tx, sig)) => {
            let chain_id = signed_tx.chain_id().map(|c| c.as_u64()).unwrap_or(1);
            if matches!(signed_tx, TypedTransaction::Legacy(_)) || sig.v <= 1 || (chain_id
                <= (u64::MAX - 35) / 2 && sig.v >= chain_id * 2 + 35) {
                Ok(signed_tx.hash(&sig).to_fixed_bytes())
            } else {
                Err("signature v out of range for the transaction type".to_string())
            }
        },
        Err(e) => Err(e.to_string()),
    }
}

} // verus!
