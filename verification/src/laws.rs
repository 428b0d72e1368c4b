//! Laws of validation, stated and proved over the validator's model.
//!
//! Each public proof function here records a property that holds of every
//! bundle, beyond what the contracts of the executable functions already
//! state case by case.

use vstd::prelude::*;

use crate::constants::{MAX_BODY_SIZE, MAX_NESTING_LEVEL};
use crate::hashing::{canonical_hash, concat_hashes, keccak_of};
use crate::tx::{tx_decodable, tx_hash_of};
use crate::types::{BundleBodyItemV, BundleInclusion, BundlePrivacyV, BundleV};
use crate::validation::{
    constraints_ok, inclusion_ok, spec_validate, spec_walk, version_ok, ErrorKind, ValidationV,
    WalkV,
};

verus! {

/// A nesting level beyond the maximum always fails with `BundleTooDeep`.
pub proof fn lemma_too_deep(level: int, b: BundleV, current_block: u64)
    requires
        level > MAX_NESTING_LEVEL,
    ensures
        spec_validate(level, b, current_block) == Err::<(BundleV, ValidationV), ErrorKind>(
            ErrorKind::BundleTooDeep,
        ),
{
}

/// A bundle with an empty body fails with `InvalidBundleBodySize` whenever
/// the checks that precede the body check (depth, version, inclusion)
/// pass.
pub proof fn lemma_empty_body(level: int, b: BundleV, current_block: u64)
    requires
        level <= MAX_NESTING_LEVEL,
        version_ok(b.version),
        inclusion_ok(b.inclusion, current_block),
        b.body.len() == 0,
    ensures
        spec_validate(level, b, current_block) == Err::<(BundleV, ValidationV), ErrorKind>(
            ErrorKind::InvalidBundleBodySize,
        ),
{
}

/// A bundle whose sole body element is an unmatched hash fails with
/// `InvalidBundleBody` whenever the checks that precede the body walk
/// pass.
pub proof fn lemma_sole_unmatched(level: int, b: BundleV, current_block: u64)
    requires
        level <= MAX_NESTING_LEVEL,
        version_ok(b.version),
        inclusion_ok(b.inclusion, current_block),
        b.body.len() == 1,
        b.body[0] is Hash,
    ensures
        spec_validate(level, b, current_block) == Err::<(BundleV, ValidationV), ErrorKind>(
            ErrorKind::InvalidBundleBody,
        ),
{
}

/// A merge that succeeds narrows the parent's window to the intersection
/// of the two effective windows and is then stable: the narrowed window is
/// never wider than either input, it is well-formed, and merging it with
/// the same child again returns it unchanged. Repeated merges therefore
/// monotonically shrink the parent's acceptable window.
pub proof fn lemma_merge_monotone_and_stable(top: BundleInclusion, inner: BundleInclusion)
    ensures
        crate::merge::spec_merge_inclusion(top, inner) matches Some(m) ==> {
            &&& m.block >= top.block && m.block >= inner.block
            &&& crate::types::effective_max_block(m) <= crate::types::effective_max_block(top)
            &&& crate::types::effective_max_block(m) <= crate::types::effective_max_block(inner)
            &&& m.block <= crate::types::effective_max_block(m)
            &&& crate::merge::spec_merge_inclusion(m, inner) == Some(m)
        },
{
}

/// A body walk that fails on a misplaced unmatched hash: if every position
/// before the hash holds a decodable raw transaction, the walk reports
/// exactly the body error.
proof fn lemma_walk_hash_beyond_first(
    level: int,
    items: Seq<BundleBodyItemV>,
    i: int,
    incl: BundleInclusion,
    prv: Option<BundlePrivacyV>,
    current_block: u64,
    j: int,
)
    requires
        0 <= i <= j < items.len(),
        0 < j,
        items[j] is Hash,
        forall|k: int|
            i <= k < j ==> (#[trigger] items[k]) is Tx && tx_decodable(items[k]->Tx_0),
    ensures
        spec_walk(level, items, i, incl, prv, current_block) == Err::<WalkV, ErrorKind>(
            ErrorKind::InvalidBundleBody,
        ),
    decreases j - i,
{
    if i < j {
        lemma_walk_hash_beyond_first(level, items, i + 1, incl, prv, current_block, j);
    }
}

/// An unmatched hash anywhere but position 0 makes validation fail; when
/// the positions before it are decodable raw transactions and the checks
/// that precede the body walk pass, the failure is exactly
/// `InvalidBundleBody`. (An earlier body element that fails on its own
/// returns its own error first.)
pub proof fn lemma_unmatched_only_first(level: int, b: BundleV, current_block: u64, j: int)
    requires
        0 < j < b.body.len(),
        b.body[j] is Hash,
    ensures
        spec_validate(level, b, current_block) is Err,
        (level <= MAX_NESTING_LEVEL && version_ok(b.version) && inclusion_ok(
            b.inclusion,
            current_block,
        ) && (forall|k: int|
            0 <= k < j ==> (#[trigger] b.body[k]) is Tx && tx_decodable(b.body[k]->Tx_0)))
            ==> spec_validate(level, b, current_block) == Err::<
            (BundleV, ValidationV),
            ErrorKind,
        >(ErrorKind::InvalidBundleBody),
{
    if spec_validate(level, b, current_block) is Ok {
        lemma_walk_ok_items(level, b.body, 0, b.inclusion, b.privacy, current_block);
        assert(!(b.body[j] is Hash));
    }
    if level <= MAX_NESTING_LEVEL && version_ok(b.version) && inclusion_ok(
        b.inclusion,
        current_block,
    ) && (forall|k: int|
        0 <= k < j ==> (#[trigger] b.body[k]) is Tx && tx_decodable(b.body[k]->Tx_0)) {
        lemma_walk_hash_beyond_first(level, b.body, 0, b.inclusion, b.privacy, current_block, j);
    }
}

/// A body walk that succeeds saw no unmatched hash beyond position 0 and
/// only decodable raw transactions.
proof fn lemma_walk_ok_items(
    level: int,
    items: Seq<BundleBodyItemV>,
    i: int,
    incl: BundleInclusion,
    prv: Option<BundlePrivacyV>,
    current_block: u64,
)
    requires
        0 <= i,
        spec_walk(level, items, i, incl, prv, current_block) is Ok,
    ensures
        forall|j: int| i <= j < items.len() && j > 0 ==> !((#[trigger] items[j]) is Hash),
        forall|j: int|
            i <= j < items.len() && (#[trigger] items[j]) is Tx ==> tx_decodable(
                items[j]->Tx_0,
            ),
    decreases items.len() - i,
{
    if 0 <= i < items.len() {
        match items[i] {
            BundleBodyItemV::Hash(h) => {
                lemma_walk_ok_items(level, items, i + 1, incl, prv, current_block);
            },
            BundleBodyItemV::Tx(raw) => {
                lemma_walk_ok_items(level, items, i + 1, incl, prv, current_block);
            },
            BundleBodyItemV::Bundle(inner) => {
                let incl2 = crate::merge::spec_merge_inclusion(incl, inner.inclusion)->Some_0;
                let prv2 = crate::merge::spec_merge_privacy(prv, inner.privacy);
                lemma_walk_ok_items(level, items, i + 1, incl2, prv2, current_block);
            },
        }
    }
}

/// Everything a successful validation certifies of the bundle it was given
/// and the bundle it leaves behind: the depth, version, inclusion and body
/// checks passed, no unmatched hash stands beyond position 0, the sole
/// body element is not an unmatched hash, every raw transaction decodes,
/// the refund constraints are acceptable, the transaction count stays
/// within bounds, a present privacy section wants at most a full refund,
/// the unmatched flag reports whether the first element is a hash, and the
/// returned bundle's metadata is cleared.
pub proof fn lemma_success_shape(level: int, b: BundleV, current_block: u64)
    requires
        spec_validate(level, b, current_block) is Ok,
    ensures
        level <= MAX_NESTING_LEVEL,
        version_ok(b.version),
        inclusion_ok(b.inclusion, current_block),
        b.body.len() > 0,
        !(b.body.len() == 1 && b.body[0] is Hash),
        forall|j: int| 0 < j < b.body.len() ==> !((#[trigger] b.body[j]) is Hash),
        forall|j: int|
            0 <= j < b.body.len() && (#[trigger] b.body[j]) is Tx ==> tx_decodable(
                b.body[j]->Tx_0,
            ),
        constraints_ok(
            b.validity,
            b.body.len() as int,
            spec_validate(level, b, current_block)->Ok_0.1.unmatched,
        ),
        spec_validate(level, b, current_block)->Ok_0.1.unmatched == (b.body[0] is Hash),
        spec_validate(level, b, current_block)->Ok_0.1.txs <= MAX_BODY_SIZE,
        spec_validate(level, b, current_block)->Ok_0.0.metadata is None,
        match spec_validate(level, b, current_block)->Ok_0.0.privacy {
            Some(p) => p.want_refund <= 100,
            None => true,
        },
        spec_validate(level, b, current_block)->Ok_0.1.unmatched ==> b.validity.refund.len()
            == 0,
{
    lemma_walk_ok_items(level, b.body, 0, b.inclusion, b.privacy, current_block);
}

/// A walk over hash-free, bundle-free positions: every element is a raw
/// transaction, so the walk leaves the inclusion window and privacy
/// section alone, keeps the elements as they are, counts one transaction
/// per element, and contributes the elements' transaction hashes in
/// order; and whether it succeeds, and what it counts and contributes,
/// does not depend on the level, the window or the privacy it was given.
proof fn lemma_walk_flat(
    level1: int,
    level2: int,
    items: Seq<BundleBodyItemV>,
    i: int,
    incl1: BundleInclusion,
    prv1: Option<BundlePrivacyV>,
    incl2: BundleInclusion,
    prv2: Option<BundlePrivacyV>,
    current_block: u64,
)
    requires
        0 <= i <= items.len(),
        forall|j: int| i <= j < items.len() ==> !((#[trigger] items[j]) is Bundle),
    ensures
        match (
            spec_walk(level1, items, i, incl1, prv1, current_block),
            spec_walk(level2, items, i, incl2, prv2, current_block),
        ) {
            (Ok(w1), Ok(w2)) => w1.items == items.subrange(i, items.len() as int) && w1.incl
                == incl1 && w1.prv == prv1 && w2.items == w1.items && w2.incl == incl2 && w2.prv
                == prv2 && w1.txs == w2.txs && w1.hashes == w2.hashes,
            (Err(k1), Err(k2)) => k1 == k2,
            _ => false,
        },
    decreases items.len() - i,
{
    if i == items.len() {
        assert(items.subrange(i, items.len() as int) =~= Seq::<BundleBodyItemV>::empty());
    } else {
        lemma_walk_flat(
            level1,
            level2,
            items,
            i + 1,
            incl1,
            prv1,
            incl2,
            prv2,
            current_block,
        );
        match (
            spec_walk(level1, items, i, incl1, prv1, current_block),
            spec_walk(level2, items, i, incl2, prv2, current_block),
        ) {
            (Ok(w1), Ok(w2)) => {
                assert(seq![items[i]] + items.subrange(i + 1, items.len() as int) =~= items
                    .subrange(i, items.len() as int));
            },
            _ => {},
        }
    }
}

/// Validating the bundle a successful validation of a nesting-free bundle
/// left behind, at the same level and chain head, succeeds again with the
/// same hash, transaction count and unmatched flag.
pub proof fn lemma_revalidation_stable(level: int, b: BundleV, current_block: u64)
    requires
        forall|j: int| 0 <= j < b.body.len() ==> !((#[trigger] b.body[j]) is Bundle),
        spec_validate(level, b, current_block) is Ok,
    ensures
        spec_validate(
            level,
            spec_validate(level, b, current_block)->Ok_0.0,
            current_block,
        ) is Ok,
        spec_validate(level, spec_validate(level, b, current_block)->Ok_0.0, current_block)
            ->Ok_0.1.hash == spec_validate(level, b, current_block)->Ok_0.1.hash,
        spec_validate(level, spec_validate(level, b, current_block)->Ok_0.0, current_block)
            ->Ok_0.1.txs == spec_validate(level, b, current_block)->Ok_0.1.txs,
        spec_validate(level, spec_validate(level, b, current_block)->Ok_0.0, current_block)
            ->Ok_0.1.unmatched == spec_validate(level, b, current_block)->Ok_0.1.unmatched,
{
    let b2 = spec_validate(level, b, current_block)->Ok_0.0;
    lemma_walk_flat(
        level,
        level,
        b.body,
        0,
        b.inclusion,
        b.privacy,
        b.inclusion,
        b2.privacy,
        current_block,
    );
    let w1 = spec_walk(level, b.body, 0, b.inclusion, b.privacy, current_block)->Ok_0;
    assert(b2.body == w1.items);
    assert(b2.body == b.body.subrange(0, b.body.len() as int));
    assert(b.body.subrange(0, b.body.len() as int) =~= b.body);
    lemma_walk_flat(
        level,
        level,
        b2.body,
        0,
        b2.inclusion,
        b2.privacy,
        b.inclusion,
        b.privacy,
        current_block,
    );
}

/// A single-transaction bundle's canonical hash is that transaction's own
/// hash, with no concatenation or digesting.
pub proof fn lemma_single_tx_hash(level: int, b: BundleV, current_block: u64)
    requires
        b.body.len() == 1,
        b.body[0] is Tx,
        spec_validate(level, b, current_block) is Ok,
    ensures
        spec_validate(level, b, current_block)->Ok_0.1.hash == tx_hash_of(b.body[0]->Tx_0),
{
    assert(spec_walk(level, b.body, 1, b.inclusion, b.privacy, current_block) == Ok::<
        WalkV,
        ErrorKind,
    >(
        WalkV {
            items: Seq::empty(),
            incl: b.inclusion,
            prv: b.privacy,
            txs: 0,
            hashes: Seq::empty(),
        },
    ));
    let w = spec_walk(level, b.body, 0, b.inclusion, b.privacy, current_block)->Ok_0;
    assert(w.hashes =~= seq![tx_hash_of(b.body[0]->Tx_0)]);
}

/// The hashes a walk over an all-transaction body contributes are exactly
/// the elements' transaction hashes, in body order, one per element.
proof fn lemma_walk_tx_hashes(
    level: int,
    items: Seq<BundleBodyItemV>,
    i: int,
    incl: BundleInclusion,
    prv: Option<BundlePrivacyV>,
    current_block: u64,
)
    requires
        0 <= i <= items.len(),
        forall|j: int| i <= j < items.len() ==> (#[trigger] items[j]) is Tx,
        spec_walk(level, items, i, incl, prv, current_block) is Ok,
    ensures
        spec_walk(level, items, i, incl, prv, current_block)->Ok_0.hashes == Seq::new(
            (items.len() - i) as nat,
            |k: int| tx_hash_of(items[i + k]->Tx_0),
        ),
        spec_walk(level, items, i, incl, prv, current_block)->Ok_0.txs == items.len() - i,
    decreases items.len() - i,
{
    if i == items.len() {
        assert(spec_walk(level, items, i, incl, prv, current_block)->Ok_0.hashes =~= Seq::new(
            0,
            |k: int| tx_hash_of(items[i + k]->Tx_0),
        ));
    } else {
        lemma_walk_tx_hashes(level, items, i + 1, incl, prv, current_block);
        let tail = spec_walk(level, items, i + 1, incl, prv, current_block)->Ok_0;
        assert(seq![tx_hash_of(items[i]->Tx_0)] + tail.hashes =~= Seq::new(
            (items.len() - i) as nat,
            |k: int| tx_hash_of(items[i + k]->Tx_0),
        ));
    }
}

/// A bundle of two or more raw transactions is identified by the
/// Keccak-256 digest of the transactions' hashes concatenated in body
/// order.
pub proof fn lemma_multi_tx_hash(level: int, b: BundleV, current_block: u64)
    requires
        b.body.len() >= 2,
        forall|j: int| 0 <= j < b.body.len() ==> (#[trigger] b.body[j]) is Tx,
        spec_validate(level, b, current_block) is Ok,
    ensures
        spec_validate(level, b, current_block)->Ok_0.1.hash == keccak_of(
            concat_hashes(
                Seq::new(b.body.len(), |k: int| tx_hash_of(b.body[k]->Tx_0)),
            ),
        ),
{
    lemma_walk_tx_hashes(level, b.body, 0, b.inclusion, b.privacy, current_block);
    let w = spec_walk(level, b.body, 0, b.inclusion, b.privacy, current_block)->Ok_0;
    assert(w.hashes =~= Seq::new(b.body.len(), |k: int| tx_hash_of(b.body[k]->Tx_0)));
    assert(w.hashes.len() >= 2);
}

} // verus!
