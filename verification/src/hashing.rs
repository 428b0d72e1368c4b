//! The canonical identity of a bundle.
//!
//! A bundle with a single body element is identified by that element's own
//! hash. A larger bundle is identified by the Keccak-256 digest of its body
//! hashes concatenated in order, fixed-width and without separators, so the
//! identity is order-sensitive and nested bundle hashes compose
//! transparently into their parent's.

use vstd::prelude::*;

use crate::types::TxHash;

verus! {

/// The Keccak-256 digest of `data`: a fixed function of the input bytes.
pub uninterp spec fn keccak_of(data: Seq<u8>) -> Seq<u8>;

/// Keccak-256 of a byte string.
///
/// Relies on `ethers_core::utils::keccak256`: the 32-byte Keccak-256
/// digest, a function of the input bytes alone.
#[verifier::external_body]
pub fn keccak256(data: &[u8]) -> (r: TxHash)
    ensures
        r@ == keccak_of(data@),
{
    ethers_core::utils::keccak256(data)
}

/// All hashes of `hashes` concatenated in order.
pub open spec fn concat_hashes(hashes: Seq<Seq<u8>>) -> Seq<u8>
    decreases hashes.len(),
{
    if hashes.len() == 0 {
        Seq::empty()
    } else {
        concat_hashes(hashes.drop_last()) + hashes.last()
    }
}

/// The canonical hash of a bundle whose body elements contributed
/// `hashes`, in body order: a single hash is returned unchanged, two or
/// more are concatenated and digested.
pub open spec fn canonical_hash(hashes: Seq<Seq<u8>>) -> Seq<u8> {
    if hashes.len() == 1 {
        hashes[0]
    } else {
        keccak_of(concat_hashes(hashes))
    }
}

/// The byte sequences of a sequence of 32-byte hashes, elementwise.
pub open spec fn hash_views(s: Seq<TxHash>) -> Seq<Seq<u8>> {
    Seq::new(s.len(), |i: int| s[i]@)
}

/// Appending one hash extends the elementwise byte model by its bytes.
pub proof fn lemma_hash_views_push(s: Seq<TxHash>, x: TxHash)
    ensures
        hash_views(s.push(x)) == hash_views(s).push(x@),
{
    assert(hash_views(s.push(x)) =~= hash_views(s).push(x@));
}

/// Compute the canonical bundle hash from the ordered body hashes.
pub fn compute_bundle_hash(hashes: &Vec<TxHash>) -> (r: TxHash)
    requires
        hashes@.len() >= 1,
    ensures
        r@ == canonical_hash(hash_views(hashes@)),
{
    let n = hashes.len();
    if n == 1 {
        let r = hashes[0];
        assert(r@ == canonical_hash(hash_views(hashes@)));
        r
    } else {
        let ghost views = hash_views(hashes@);
        let mut buf: Vec<u8> = Vec::new();
        let mut j: usize = 0;
        while j < n
            invariant
                n == hashes@.len(),
                0 <= j <= n,
                buf@ == concat_hashes(views.subrange(0, j as int)),
                views == hash_views(hashes@),
            decreases n - j,
        {
            let h = hashes[j];
            let mut k: usize = 0;
            while k < 32
                invariant
                    0 <= k <= 32,
                    h@.len() == 32,
                    buf@ == concat_hashes(views.subrange(0, j as int)) + h@.subrange(
                        0,
                        k as int,
                    ),
                decreases 32 - k,
            {
                buf.push(h[k]);
                k = k + 1;
                assert(h@.subrange(0, k as int) == h@.subrange(0, k - 1 as int).push(
                    h@[k - 1],
                ));
            }
            j = j + 1;
            proof {
                assert(h@.subrange(0, 32) == h@);
                assert(views.subrange(0, j as int).drop_last() == views.subrange(
                    0,
                    j - 1 as int,
                ));
                assert(views.subrange(0, j as int).last() == h@);
            }
        }
        assert(views.subrange(0, n as int) == views);
        keccak256(buf.as_slice())
    }
}

} // verus!
