//! The recursive bundle validator.
//!
//! `validate_bundle` walks a bundle tree top-down, enforcing nesting-depth,
//! version, inclusion-window, body-shape, refund and privacy rules,
//! narrowing the parent's constraints from each nested bundle, and returns
//! the canonical hash, the flattened transaction count and the unmatched
//! flag, or the first error met. The functions `spec_validate` and
//! `spec_walk` state the same pass mathematically, over the bundle's model;
//! `validate_bundle` is proved to decide and rewrite exactly as they say.

use vstd::prelude::*;
use vstd::string::StringExecFns;

use crate::constants::{MAX_BLOCK_OFFSET, MAX_BLOCK_RANGE, MAX_BODY_SIZE, MAX_NESTING_LEVEL};
use crate::hashing::{canonical_hash, hash_views};
use crate::merge::{privacy_view, spec_merge_inclusion, spec_merge_privacy};
use crate::tx::{tx_decodable, tx_hash_of};
use crate::types::{
    effective_max_block, lemma_view_items, view_items, Bundle, BundleBodyItem,
    BundleBodyItemV, BundleInclusion,
    BundlePrivacyV, BundleV, BundleValidation, BundleValidityV, Hint, RefundConfig,
    RefundConstraint, TxHash,
};

verus! {

/// A validation failure; each variant is a distinct, non-retryable outcome.
#[derive(Debug)]
pub enum BundleValidationError {
    /// Nesting exceeds the maximum depth.
    BundleTooDeep,
    /// Unrecognized protocol version tag (carried along).
    UnsupportedVersion(String),
    /// Malformed or non-overlapping block range, or a range or offset
    /// outside policy limits.
    InvalidInclusion(String),
    /// Empty body, or flattened transaction count over the maximum.
    InvalidBundleBodySize,
    /// Malformed unmatched-item placement, a raw transaction that does not
    /// decode, or an unmatched nested bundle.
    InvalidBundleBody(String),
    /// Refund percentage or index violations.
    InvalidBundleConstraints,
    /// Disallowed hints on an unmatched bundle, or a refund wish out of
    /// range.
    InvalidBundlePrivacy,
}

impl BundleValidationError {
    /// The human-readable description of the failure, as the transport
    /// layer reports it.
    pub fn message(&self) -> (r: String)
        ensures
            r@ == match self {
                BundleValidationError::BundleTooDeep => "bundle too deep"@,
                BundleValidationError::UnsupportedVersion(v) => "unsupported bundle version: "@
                    + v@,
                BundleValidationError::InvalidInclusion(m) => "invalid inclusion, error: "@ + m@,
                BundleValidationError::InvalidBundleBodySize => "invalid bundle body size"@,
                BundleValidationError::InvalidBundleBody(m) => "invalid bundle body: "@ + m@,
                BundleValidationError::InvalidBundleConstraints => "invalid bundle constraints"@,
                BundleValidationError::InvalidBundlePrivacy => "invalid bundle privacy"@,
            },
    {
        match self {
            BundleValidationError::BundleTooDeep => "bundle too deep".to_owned(),
            BundleValidationError::UnsupportedVersion(v) => "unsupported bundle version: "
                .to_owned()
                .concat(v.as_str()),
            BundleValidationError::InvalidInclusion(m) => "invalid inclusion, error: "
                .to_owned()
                .concat(m.as_str()),
            BundleValidationError::InvalidBundleBodySize => "invalid bundle body size".to_owned(),
            BundleValidationError::InvalidBundleBody(m) => "invalid bundle body: ".to_owned()
                .concat(m.as_str()),
            BundleValidationError::InvalidBundleConstraints => "invalid bundle constraints"
                .to_owned(),
            BundleValidationError::InvalidBundlePrivacy => "invalid bundle privacy".to_owned(),
        }
    }
}

/// The failure classes of validation, with the variants' payloads
/// abstracted away.
pub ghost enum ErrorKind {
    BundleTooDeep,
    UnsupportedVersion,
    InvalidInclusion,
    InvalidBundleBodySize,
    InvalidBundleBody,
    InvalidBundleConstraints,
    InvalidBundlePrivacy,
}

/// The failure class of an error value.
pub open spec fn error_kind(e: BundleValidationError) -> ErrorKind {
    match e {
        BundleValidationError::BundleTooDeep => ErrorKind::BundleTooDeep,
        BundleValidationError::UnsupportedVersion(_) => ErrorKind::UnsupportedVersion,
        BundleValidationError::InvalidInclusion(_) => ErrorKind::InvalidInclusion,
        BundleValidationError::InvalidBundleBodySize => ErrorKind::InvalidBundleBodySize,
        BundleValidationError::InvalidBundleBody(_) => ErrorKind::InvalidBundleBody,
        BundleValidationError::InvalidBundleConstraints => ErrorKind::InvalidBundleConstraints,
        BundleValidationError::InvalidBundlePrivacy => ErrorKind::InvalidBundlePrivacy,
    }
}

/// The outcome of a successful validation, in model terms.
pub ghost struct ValidationV {
    pub hash: Seq<u8>,
    pub txs: int,
    pub unmatched: bool,
}

/// The state a body walk leaves behind: the rewritten body elements from
/// the walked position on, the narrowed inclusion window, the merged
/// privacy section, and the transactions and hashes the elements
/// contributed.
pub ghost struct WalkV {
    pub items: Seq<BundleBodyItemV>,
    pub incl: BundleInclusion,
    pub prv: Option<BundlePrivacyV>,
    pub txs: int,
    pub hashes: Seq<Seq<u8>>,
}

/// Whether `version` is a supported protocol version tag.
pub open spec fn version_ok(version: Seq<char>) -> bool {
    version == "beta-1"@ || version == "v0.1"@
}

/// Whether the inclusion window is acceptable at chain head
/// `current_block`: well-ordered, no wider than the maximum range, still
/// ahead of the chain head, and not further ahead than the maximum offset.
pub open spec fn inclusion_ok(incl: BundleInclusion, current_block: u64) -> bool {
    let min_block = incl.block;
    let max_block = effective_max_block(incl);
    &&& min_block <= max_block
    &&& max_block - min_block <= MAX_BLOCK_RANGE
    &&& current_block < max_block
    &&& min_block <= current_block + MAX_BLOCK_OFFSET
}

/// The sum of the configured refund percentages.
pub open spec fn sum_config(s: Seq<RefundConfig>) -> int
    decreases s.len(),
{
    if s.len() == 0 {
        0
    } else {
        sum_config(s.drop_last()) + s.last().percent
    }
}

/// The sum of the refund-constraint percentages.
pub open spec fn sum_refund(s: Seq<RefundConstraint>) -> int
    decreases s.len(),
{
    if s.len() == 0 {
        0
    } else {
        sum_refund(s.drop_last()) + s.last().percent
    }
}

/// Whether the refund constraints are acceptable for a body of `body_len`
/// elements: an unmatched bundle carries none, every percentage and both
/// percentage sums stay within 100, and every constraint names a distinct,
/// existing body position.
pub open spec fn constraints_ok(
    validity: BundleValidityV,
    body_len: int,
    unmatched: bool,
) -> bool {
    &&& !(unmatched && validity.refund.len() > 0)
    &&& forall|j: int|
        0 <= j < validity.refund_config.len() ==> (#[trigger] validity.refund_config[j]).percent
            <= 100
    &&& sum_config(validity.refund_config) <= 100
    &&& forall|j: int|
        0 <= j < validity.refund.len() ==> (#[trigger] validity.refund[j]).body_idx < body_len
            && validity.refund[j].percent <= 100
    &&& forall|j: int, k: int|
        0 <= j < k < validity.refund.len() ==> (#[trigger] validity.refund[j]).body_idx != (
        #[trigger] validity.refund[k]).body_idx
    &&& sum_refund(validity.refund) <= 100
}

/// A level bound that stays non-negative, for the termination measure of
/// the mutually recursive walk.
pub open spec fn level_measure(level: int) -> int {
    if level > MAX_NESTING_LEVEL + 1 {
        0
    } else {
        MAX_NESTING_LEVEL + 1 - level
    }
}

/// What validation decides and produces, stated over the bundle's model:
/// the rewritten bundle and its validation outcome, or the class of the
/// first error met. `spec_walk` gives the body pass.
pub open spec fn spec_validate(level: int, b: BundleV, current_block: u64) -> Result<
    (BundleV, ValidationV),
    ErrorKind,
>
    decreases level_measure(level), 1int, 0int,
{
    if level > MAX_NESTING_LEVEL {
        Err(ErrorKind::BundleTooDeep)
    } else if !version_ok(b.version) {
        Err(ErrorKind::UnsupportedVersion)
    } else if !inclusion_ok(b.inclusion, current_block) {
        Err(ErrorKind::InvalidInclusion)
    } else if b.body.len() == 0 {
        Err(ErrorKind::InvalidBundleBodySize)
    } else {
        match spec_walk(level, b.body, 0, b.inclusion, b.privacy, current_block) {
            Err(k) => Err(k),
            Ok(w) => {
                let unmatched = b.body[0] is Hash;
                if w.txs > MAX_BODY_SIZE {
                    Err(ErrorKind::InvalidBundleBodySize)
                } else if !constraints_ok(b.validity, b.body.len() as int, unmatched) {
                    Err(ErrorKind::InvalidBundleConstraints)
                } else if unmatched && (w.prv matches Some(p) && p.hints.len() > 0) {
                    Err(ErrorKind::InvalidBundlePrivacy)
                } else {
                    let privacy = match w.prv {
                        None => None,
                        Some(p) => if p.hints.len() > 0 {
                            Some(BundlePrivacyV { hints: p.hints.push(Hint::Hash), ..p })
                        } else {
                            Some(p)
                        },
                    };
                    if privacy matches Some(p) && p.want_refund > 100 {
                        Err(ErrorKind::InvalidBundlePrivacy)
                    } else {
                        Ok(
                            (
                                BundleV {
                                    version: b.version,
                                    inclusion: w.incl,
                                    body: w.items,
                                    validity: b.validity,
                                    privacy,
                                    metadata: None,
                                },
                                ValidationV {
                                    hash: canonical_hash(w.hashes),
                                    txs: w.txs,
                                    unmatched,
                                },
                            ),
                        )
                    }
                }
            },
        }
    }
}

/// The body pass from position `i` on, with `incl` and `prv` the parent's
/// inclusion window and privacy section as narrowed so far: a precomputed
/// hash is only legal as the sole content of position 0 and must not stand
/// alone, raw transaction bytes must decode, and a nested bundle first
/// narrows the parent's constraints, then validates one level down, and
/// must not itself be unmatched.
pub open spec fn spec_walk(
    level: int,
    items: Seq<BundleBodyItemV>,
    i: int,
    incl: BundleInclusion,
    prv: Option<BundlePrivacyV>,
    current_block: u64,
) -> Result<WalkV, ErrorKind>
    decreases level_measure(level), 0int, items.len() - i,
{
    if i < 0 || i >= items.len() {
        Ok(WalkV { items: Seq::empty(), incl, prv, txs: 0, hashes: Seq::empty() })
    } else {
        match items[i] {
            BundleBodyItemV::Hash(h) => {
                if i > 0 {
                    Err(ErrorKind::InvalidBundleBody)
                } else if items.len() == 1 {
                    Err(ErrorKind::InvalidBundleBody)
                } else {
                    match spec_walk(level, items, i + 1, incl, prv, current_block) {
                        Err(k) => Err(k),
                        Ok(w) => Ok(
                            WalkV {
                                items: seq![items[i]] + w.items,
                                incl: w.incl,
                                prv: w.prv,
                                txs: w.txs,
                                hashes: seq![h] + w.hashes,
                            },
                        ),
                    }
                }
            },
            BundleBodyItemV::Tx(raw) => {
                if !tx_decodable(raw) {
                    Err(ErrorKind::InvalidBundleBody)
                } else {
                    match spec_walk(level, items, i + 1, incl, prv, current_block) {
                        Err(k) => Err(k),
                        Ok(w) => Ok(
                            WalkV {
                                items: seq![items[i]] + w.items,
                                incl: w.incl,
                                prv: w.prv,
                                txs: w.txs + 1,
                                hashes: seq![tx_hash_of(raw)] + w.hashes,
                            },
                        ),
                    }
                }
            },
            BundleBodyItemV::Bundle(inner) => {
                match spec_merge_inclusion(incl, inner.inclusion) {
                    None => Err(ErrorKind::InvalidInclusion),
                    Some(incl2) => {
                        let prv2 = spec_merge_privacy(prv, inner.privacy);
                        let inner_result = if level + 1 > MAX_NESTING_LEVEL {
                            Err(ErrorKind::BundleTooDeep)
                        } else {
                            spec_validate(level + 1, inner, current_block)
                        };
                        match inner_result {
                            Err(k) => Err(k),
                            Ok((inner2, v)) => {
                                if v.unmatched {
                                    Err(ErrorKind::InvalidBundleBody)
                                } else {
                                    match spec_walk(
                                        level,
                                        items,
                                        i + 1,
                                        incl2,
                                        prv2,
                                        current_block,
                                    ) {
                                        Err(k) => Err(k),
                                        Ok(w) => Ok(
                                            WalkV {
                                                items: seq![BundleBodyItemV::Bundle(inner2)]
                                                    + w.items,
                                                incl: w.incl,
                                                prv: w.prv,
                                                txs: w.txs + v.txs,
                                                hashes: seq![v.hash] + w.hashes,
                                            },
                                        ),
                                    }
                                }
                            },
                        }
                    },
                }
            },
        }
    }
}

/// A finished walk prefix (`prefix_items` rewritten elements, `txs`
/// transactions, `hashes` contributions) glued onto the walk of the
/// remaining positions.
pub open spec fn walk_combine(
    prefix_items: Seq<BundleBodyItemV>,
    txs: int,
    hashes: Seq<Seq<u8>>,
    rest: Result<WalkV, ErrorKind>,
) -> Result<WalkV, ErrorKind> {
    match rest {
        Err(k) => Err(k),
        Ok(w) => Ok(
            WalkV {
                items: prefix_items + w.items,
                incl: w.incl,
                prv: w.prv,
                txs: txs + w.txs,
                hashes: hashes + w.hashes,
            },
        ),
    }
}

/// Gluing one walked element onto the prefix commutes with prepending its
/// contribution to the rest of the walk.
proof fn lemma_combine_step(
    prefix_items: Seq<BundleBodyItemV>,
    txs: int,
    hashes: Seq<Seq<u8>>,
    x: BundleBodyItemV,
    d: int,
    h: Seq<u8>,
    rest: Result<WalkV, ErrorKind>,
)
    ensures
        walk_combine(
            prefix_items,
            txs,
            hashes,
            match rest {
                Err(k) => Err(k),
                Ok(w) => Ok(
                    WalkV {
                        items: seq![x] + w.items,
                        incl: w.incl,
                        prv: w.prv,
                        txs: w.txs + d,
                        hashes: seq![h] + w.hashes,
                    },
                ),
            },
        ) == walk_combine(prefix_items.push(x), txs + d, hashes.push(h), rest),
{
    match rest {
        Err(k) => {},
        Ok(w) => {
            assert(prefix_items + (seq![x] + w.items) =~= prefix_items.push(x) + w.items);
            assert(hashes + (seq![h] + w.hashes) =~= hashes.push(h) + w.hashes);
        },
    }
}

/// A prefix of the configured refunds sums to no more than the whole.
proof fn lemma_sum_config_prefix(s: Seq<RefundConfig>, j: int)
    requires
        0 <= j <= s.len(),
    ensures
        sum_config(s.subrange(0, j)) <= sum_config(s),
    decreases s.len() - j,
{
    if j < s.len() {
        assert(s.subrange(0, j + 1).drop_last() =~= s.subrange(0, j));
        assert(s.subrange(0, j + 1).last() == s[j]);
        lemma_sum_config_prefix(s, j + 1);
    } else {
        assert(s.subrange(0, s.len() as int) =~= s);
    }
}

/// A prefix of the refund constraints sums to no more than the whole.
proof fn lemma_sum_refund_prefix(s: Seq<RefundConstraint>, j: int)
    requires
        0 <= j <= s.len(),
    ensures
        sum_refund(s.subrange(0, j)) <= sum_refund(s),
    decreases s.len() - j,
{
    if j < s.len() {
        assert(s.subrange(0, j + 1).drop_last() =~= s.subrange(0, j));
        assert(s.subrange(0, j + 1).last() == s[j]);
        lemma_sum_refund_prefix(s, j + 1);
    } else {
        assert(s.subrange(0, s.len() as int) =~= s);
    }
}

/// Whether the version tag is one of the supported protocol versions.
fn version_supported(version: &String) -> (r: bool)
    ensures
        r == version_ok(version@),
{
    let beta: String = "beta-1".to_owned();
    let v01: String = "v0.1".to_owned();
    *version == beta || *version == v01
}

/// Addition on `u64` that stops at the largest value instead of wrapping.
fn sat_add_u64(a: u64, b: u64) -> (r: u64)
    ensures
        r as int == if a + b > u64::MAX {
            u64::MAX as int
        } else {
            a + b
        },
{
    if a <= u64::MAX - b {
        a + b
    } else {
        u64::MAX
    }
}

/// A signer/verifier capability threaded through recursive validation
/// calls, reserved for future signature and chain-id checks; validation
/// does not consult it today.
pub trait Signer {
    /// The chain the signer signs for.
    fn chain_id(&self) -> u64;
}

/// A signer that carries no key material, for callers that only validate.
pub struct NoopSigner {}

impl Signer for NoopSigner {
    fn chain_id(&self) -> u64 {
        0
    }
}

/// Whether `v` holds `x`.
fn contains_u64(v: &Vec<u64>, x: u64) -> (r: bool)
    ensures
        r == v@.contains(x),
{
    let n = v.len();
    let mut i: usize = 0;
    while i < n
        invariant
            n == v@.len(),
            0 <= i <= n,
            forall|k: int| 0 <= k < i ==> v@[k] != x,
        decreases n - i,
    {
        if v[i] == x {
            return true;
        }
        i = i + 1;
    }
    false
}

/// Validate a bundle tree at nesting `level` (0 for a submitted bundle)
/// against the chain head `current_block_number`, rewriting it in place:
/// inclusion windows narrow, builder lists intersect, a hash hint is
/// appended where hints are revealed, and metadata is cleared. Returns the
/// canonical hash, flattened transaction count and unmatched flag, or the
/// first error met; on an error the bundle may be left partially
/// rewritten.
#[verifier::rlimit(100)]
#[verifier::loop_isolation(false)]
pub fn validate_bundle<S: Signer>(
    level: u16,
    bundle: &mut Bundle,
    current_block_number: u64,
    signer: &S,
) -> (r: Result<BundleValidation, BundleValidationError>)
    ensures
        match spec_validate(level as int, old(bundle)@, current_block_number) {
            Ok(p) => r matches Ok(val) && (val.hash@ == p.1.hash && val.txs as int == p.1.txs
                && val.unmatched == p.1.unmatched && final(bundle)@ == p.0),
            Err(k) => r matches Err(e) && error_kind(e) == k,
        },
    decreases MAX_NESTING_LEVEL + 1 - level,
{
    if level > MAX_NESTING_LEVEL {
        return Err(BundleValidationError::BundleTooDeep);
    }
    if !version_supported(&bundle.version) {
        return Err(BundleValidationError::UnsupportedVersion(bundle.version.clone()));
    }
    let ghost pre = old(bundle)@;

    let min_block = bundle.inclusion.block;
    let max_block = match bundle.inclusion.max_block {
        Some(m) => if m == 0 {
            min_block
        } else {
            m
        },
        None => min_block,
    };
    proof {
        assert(max_block == effective_max_block(pre.inclusion));
    }
    if max_block < min_block {
        return Err(
            BundleValidationError::InvalidInclusion(
                "max block must be greater than or equal to min block".to_owned(),
            ),
        );
    }
    if max_block - min_block > MAX_BLOCK_RANGE {
        return Err(BundleValidationError::InvalidInclusion("exceeds max block range".to_owned()));
    }
    if current_block_number >= max_block {
        return Err(
            BundleValidationError::InvalidInclusion(
                "max block must be greater than current block".to_owned(),
            ),
        );
    }
    if min_block > current_block_number && min_block - current_block_number > MAX_BLOCK_OFFSET {
        return Err(
            BundleValidationError::InvalidInclusion(
                "min block is too far ahead of current block".to_owned(),
            ),
        );
    }
    proof {
        assert(inclusion_ok(pre.inclusion, current_block_number));
    }
    if bundle.body.len() == 0 {
        return Err(BundleValidationError::InvalidBundleBodySize);
    }

    let body_len = bundle.body.len();
    let mut old_body: Vec<BundleBodyItem> = Vec::new();
    core::mem::swap(&mut bundle.body, &mut old_body);
    let mut new_body: Vec<BundleBodyItem> = Vec::new();
    let mut body_hashes: Vec<TxHash> = Vec::new();
    let mut txs: u64 = 0;
    let ghost mut txs_spec: int = 0;
    let mut unmatched = false;
    let mut i: usize = 0;
    proof {
        lemma_view_items(old_body@);
        assert(view_items(old_body@) == pre.body);
        assert(pre.body.len() == body_len);
        assert(pre.body.subrange(0, body_len as int) =~= pre.body);
        assert(view_items(new_body@) =~= Seq::<BundleBodyItemV>::empty());
        assert(hash_views(body_hashes@) =~= Seq::<Seq<u8>>::empty());
        assert(bundle.inclusion == pre.inclusion);
        assert(privacy_view(bundle.privacy) == pre.privacy);
        let rest_init = spec_walk(
            level as int,
            pre.body,
            0,
            pre.inclusion,
            pre.privacy,
            current_block_number,
        );
        match rest_init {
            Err(k) => {
                assert(walk_combine(
                    view_items(new_body@),
                    txs_spec,
                    hash_views(body_hashes@),
                    rest_init,
                ) == rest_init);
            },
            Ok(w) => {
                assert(Seq::<BundleBodyItemV>::empty() + w.items =~= w.items);
                assert(Seq::<Seq<u8>>::empty() + w.hashes =~= w.hashes);
                assert(walk_combine(
                    view_items(new_body@),
                    txs_spec,
                    hash_views(body_hashes@),
                    rest_init,
                ) == Ok::<WalkV, ErrorKind>(
                    WalkV {
                        items: w.items,
                        incl: w.incl,
                        prv: w.prv,
                        txs: w.txs,
                        hashes: w.hashes,
                    },
                ));
                assert(WalkV {
                    items: w.items,
                    incl: w.incl,
                    prv: w.prv,
                    txs: w.txs,
                    hashes: w.hashes,
                } == w);
            },
        }
    }
    while i < body_len
        invariant
            level <= MAX_NESTING_LEVEL,
            version_ok(pre.version),
            inclusion_ok(pre.inclusion, current_block_number),
            pre.body.len() == body_len,
            body_len > 0,
            0 <= i <= body_len,
            old_body@.len() == body_len - i,
            view_items(old_body@) == pre.body.subrange(i as int, body_len as int),
            new_body@.len() == i,
            body_hashes@.len() == i,
            unmatched == (i > 0 && pre.body[0] is Hash),
            txs_spec >= 0,
            txs as int == if txs_spec > u64::MAX as int {
                u64::MAX as int
            } else {
                txs_spec
            },
            bundle@.version == pre.version,
            bundle@.validity == pre.validity,
            bundle@.metadata == pre.metadata,
            spec_walk(
                level as int,
                pre.body,
                0,
                pre.inclusion,
                pre.privacy,
                current_block_number,
            ) == walk_combine(
                view_items(new_body@),
                txs_spec,
                hash_views(body_hashes@),
                spec_walk(
                    level as int,
                    pre.body,
                    i as int,
                    bundle.inclusion,
                    privacy_view(bundle.privacy),
                    current_block_number,
                ),
            ),
        decreases body_len - i,
    {
        let ghost ob0 = old_body@;
        let ghost incl0 = bundle.inclusion;
        let ghost prv0 = privacy_view(bundle.privacy);
        let ghost rest0 = spec_walk(
            level as int,
            pre.body,
            i as int,
            incl0,
            prv0,
            current_block_number,
        );
        let ghost prefix0 = view_items(new_body@);
        let ghost txs0 = txs_spec;
        let ghost hashes0 = hash_views(body_hashes@);
        let ghost nb0 = new_body@;
        let ghost bhs0 = body_hashes@;
        let item = old_body.remove(0);
        proof {
            lemma_view_items(ob0);
            assert(view_items(ob0)[0] == ob0[0]@);
            assert(pre.body.subrange(i as int, body_len as int)[0] == pre.body[i as int]);
            assert(item@ == pre.body[i as int]);
            assert(old_body@ =~= ob0.subrange(1, ob0.len() as int));
            lemma_view_items(old_body@);
            assert forall|k: int| 0 <= k < view_items(old_body@).len() implies view_items(
                old_body@,
            )[k] == pre.body.subrange(i + 1, body_len as int)[k] by {
                assert(old_body@[k] == ob0[k + 1]);
                assert(view_items(ob0)[k + 1] == ob0[k + 1]@);
                assert(view_items(ob0)[k + 1] == pre.body.subrange(i as int, body_len as int)[k
                    + 1]);
            }
            assert(view_items(old_body@) =~= pre.body.subrange(i + 1, body_len as int));
        }
        match item {
            BundleBodyItem::Hash(h) => {
                if unmatched || i > 0 {
                    proof {
                        assert(rest0 == Err::<WalkV, ErrorKind>(ErrorKind::InvalidBundleBody));
                        assert(spec_validate(level as int, pre, current_block_number) == Err::<
                            (BundleV, ValidationV),
                            ErrorKind,
                        >(ErrorKind::InvalidBundleBody));
                    }
                    return Err(
                        BundleValidationError::InvalidBundleBody(
                            "unmatched item out of place".to_owned(),
                        ),
                    );
                }
                unmatched = true;
                body_hashes.push(h);
                if body_len == 1 {
                    proof {
                        assert(rest0 == Err::<WalkV, ErrorKind>(ErrorKind::InvalidBundleBody));
                        assert(spec_validate(level as int, pre, current_block_number) == Err::<
                            (BundleV, ValidationV),
                            ErrorKind,
                        >(ErrorKind::InvalidBundleBody));
                    }
                    return Err(
                        BundleValidationError::InvalidBundleBody(
                            "bundle body with single unmatched item".to_owned(),
                        ),
                    );
                }
                new_body.push(BundleBodyItem::Hash(h));
                proof {
                    txs_spec = txs0;
                    let restn = spec_walk(
                        level as int,
                        pre.body,
                        i + 1,
                        incl0,
                        prv0,
                        current_block_number,
                    );
                    assert(rest0 == match restn {
                        Err(k) => Err::<WalkV, ErrorKind>(k),
                        Ok(w) => Ok(
                            WalkV {
                                items: seq![pre.body[i as int]] + w.items,
                                incl: w.incl,
                                prv: w.prv,
                                txs: w.txs,
                                hashes: seq![h@] + w.hashes,
                            },
                        ),
                    });
                    lemma_combine_step(prefix0, txs0, hashes0, pre.body[i as int], 0, h@, restn);
                    crate::types::lemma_view_items_push(nb0, BundleBodyItem::Hash(h));
                    assert(view_items(new_body@) == prefix0.push(pre.body[i as int]));
                    crate::hashing::lemma_hash_views_push(bhs0, h);
                }
            },
            BundleBodyItem::Tx(raw) => {
                match crate::tx::decode_signed_tx(raw.as_slice()) {
                    Err(msg) => {
                        proof {
                            assert(rest0 == Err::<WalkV, ErrorKind>(ErrorKind::InvalidBundleBody));
                            assert(spec_validate(level as int, pre, current_block_number) == Err::<
                                (BundleV, ValidationV),
                                ErrorKind,
                            >(ErrorKind::InvalidBundleBody));
                        }
                        return Err(BundleValidationError::InvalidBundleBody(msg));
                    },
                    Ok(th) => {
                        body_hashes.push(th);
                        txs = sat_add_u64(txs, 1);
                        proof {
                            txs_spec = txs0 + 1;
                            let restn = spec_walk(
                                level as int,
                                pre.body,
                                i + 1,
                                incl0,
                                prv0,
                                current_block_number,
                            );
                            assert(rest0 == match restn {
                                Err(k) => Err::<WalkV, ErrorKind>(k),
                                Ok(w) => Ok(
                                    WalkV {
                                        items: seq![pre.body[i as int]] + w.items,
                                        incl: w.incl,
                                        prv: w.prv,
                                        txs: w.txs + 1,
                                        hashes: seq![th@] + w.hashes,
                                    },
                                ),
                            });
                            lemma_combine_step(
                                prefix0,
                                txs0,
                                hashes0,
                                pre.body[i as int],
                                1,
                                th@,
                                restn,
                            );
                            crate::hashing::lemma_hash_views_push(bhs0, th);
                        }
                        new_body.push(BundleBodyItem::Tx(raw));
                    },
                }
            },
            BundleBodyItem::Bundle(inner) => {
                let mut inner = inner;
                let ghost inner_v = inner@;
                match crate::merge::merge_inclusion_intervals(
                    &mut bundle.inclusion,
                    &inner.inclusion,
                ) {
                    Err(msg) => {
                        proof {
                            assert(rest0 == Err::<WalkV, ErrorKind>(ErrorKind::InvalidInclusion));
                            assert(spec_validate(level as int, pre, current_block_number) == Err::<
                                (BundleV, ValidationV),
                                ErrorKind,
                            >(ErrorKind::InvalidInclusion));
                        }
                        return Err(BundleValidationError::InvalidInclusion(msg));
                    },
                    Ok(_u) => {},
                }
                crate::merge::merge_privacy_builders(&mut bundle.privacy, &inner.privacy);
                proof {
                    assert(privacy_view(inner.privacy) == inner_v.privacy);
                    assert(privacy_view(bundle.privacy) == spec_merge_privacy(
                        prv0,
                        inner_v.privacy,
                    ));
                    assert(spec_merge_inclusion(incl0, inner_v.inclusion) == Some(
                        bundle.inclusion,
                    ));
                }
                let inner_res = validate_bundle(level + 1, &mut inner, current_block_number, signer);
                proof {
                    if level + 1 > MAX_NESTING_LEVEL {
                        assert(spec_validate((level + 1) as int, inner_v, current_block_number)
                            == Err::<(BundleV, ValidationV), ErrorKind>(ErrorKind::BundleTooDeep));
                    }
                }
                match inner_res {
                    Err(e) => {
                        proof {
                            assert(rest0 == Err::<WalkV, ErrorKind>(error_kind(e)));
                            assert(spec_validate(level as int, pre, current_block_number) == Err::<
                                (BundleV, ValidationV),
                                ErrorKind,
                            >(error_kind(e)));
                        }
                        return Err(e);
                    },
                    Ok(v) => {
                        let ghost vspec = spec_validate(
                            (level + 1) as int,
                            inner_v,
                            current_block_number,
                        )->Ok_0.1;
                        let ghost inner2 = spec_validate(
                            (level + 1) as int,
                            inner_v,
                            current_block_number,
                        )->Ok_0.0;
                        if v.unmatched {
                            proof {
                                assert(rest0 == Err::<WalkV, ErrorKind>(
                                    ErrorKind::InvalidBundleBody,
                                ));
                                assert(spec_validate(level as int, pre, current_block_number)
                                    == Err::<(BundleV, ValidationV), ErrorKind>(
                                    ErrorKind::InvalidBundleBody,
                                ));
                            }
                            return Err(
                                BundleValidationError::InvalidBundleBody(
                                    "inner bundle unmatched".to_owned(),
                                ),
                            );
                        }
                        body_hashes.push(v.hash);
                        txs = sat_add_u64(txs, v.txs);
                        proof {
                            txs_spec = txs0 + vspec.txs;
                            let restn = spec_walk(
                                level as int,
                                pre.body,
                                i + 1,
                                bundle.inclusion,
                                privacy_view(bundle.privacy),
                                current_block_number,
                            );
                            assert(rest0 == match restn {
                                Err(k) => Err::<WalkV, ErrorKind>(k),
                                Ok(w) => Ok(
                                    WalkV {
                                        items: seq![BundleBodyItemV::Bundle(inner2)] + w.items,
                                        incl: w.incl,
                                        prv: w.prv,
                                        txs: w.txs + vspec.txs,
                                        hashes: seq![vspec.hash] + w.hashes,
                                    },
                                ),
                            });
                            lemma_combine_step(
                                prefix0,
                                txs0,
                                hashes0,
                                BundleBodyItemV::Bundle(inner2),
                                vspec.txs,
                                vspec.hash,
                                restn,
                            );
                            crate::hashing::lemma_hash_views_push(bhs0, v.hash);
                            assert(vspec.hash == v.hash@);
                            assert(vspec.txs == v.txs as int);
                            assert(vspec.txs >= 0);
                            assert(inner@ == inner2);
                        }
                        new_body.push(BundleBodyItem::Bundle(inner));
                    },
                }
            },
        }
        proof {
            let pushed = new_body@[new_body@.len() - 1];
            assert(new_body@ == nb0.push(pushed));
            crate::types::lemma_view_items_push(nb0, pushed);
        }
        i = i + 1;
    }
    proof {
        assert(old_body@.len() == 0);
        let tail = spec_walk(
            level as int,
            pre.body,
            body_len as int,
            bundle.inclusion,
            privacy_view(bundle.privacy),
            current_block_number,
        );
        assert(tail == Ok::<WalkV, ErrorKind>(
            WalkV {
                items: Seq::empty(),
                incl: bundle.inclusion,
                prv: privacy_view(bundle.privacy),
                txs: 0,
                hashes: Seq::empty(),
            },
        ));
        assert(view_items(new_body@) + Seq::<BundleBodyItemV>::empty() =~= view_items(new_body@));
        assert(hash_views(body_hashes@) + Seq::<Seq<u8>>::empty() =~= hash_views(body_hashes@));
    }
    let ghost w = WalkV {
        items: view_items(new_body@),
        incl: bundle.inclusion,
        prv: privacy_view(bundle.privacy),
        txs: txs_spec,
        hashes: hash_views(body_hashes@),
    };
    proof {
        assert(spec_walk(
            level as int,
            pre.body,
            0,
            pre.inclusion,
            pre.privacy,
            current_block_number,
        ) == Ok::<WalkV, ErrorKind>(w));
    }
    bundle.body = new_body;

    if txs > MAX_BODY_SIZE {
        proof {
            assert(w.txs > MAX_BODY_SIZE);
            assert(spec_validate(level as int, pre, current_block_number) == Err::<
                (BundleV, ValidationV),
                ErrorKind,
            >(ErrorKind::InvalidBundleBodySize));
        }
        return Err(BundleValidationError::InvalidBundleBodySize);
    }
    proof {
        assert(txs as int == txs_spec);
    }

    let hash = crate::hashing::compute_bundle_hash(&body_hashes);

    if unmatched && bundle.validity.refund.len() > 0 {
        proof {
            assert(!constraints_ok(pre.validity, body_len as int, unmatched));
            assert(spec_validate(level as int, pre, current_block_number) == Err::<
                (BundleV, ValidationV),
                ErrorKind,
            >(ErrorKind::InvalidBundleConstraints));
        }
        return Err(BundleValidationError::InvalidBundleConstraints);
    }

    let ghost cfgs = pre.validity.refund_config;
    let cfg_len = bundle.validity.refund_config.len();
    let mut total_cfg: u64 = 0;
    let mut j: usize = 0;
    proof {
        assert(cfgs == bundle.validity.refund_config@);
        assert(cfgs.subrange(0, 0) =~= Seq::<RefundConfig>::empty());
    }
    while j < cfg_len
        invariant
            cfg_len == cfgs.len(),
            0 <= j <= cfg_len,
            cfgs == bundle.validity.refund_config@,
            total_cfg <= 100,
            total_cfg as int == sum_config(cfgs.subrange(0, j as int)),
            forall|k: int| 0 <= k < j ==> (#[trigger] cfgs[k]).percent <= 100,
        decreases cfg_len - j,
    {
        let pc = bundle.validity.refund_config[j].percent;
        if pc > 100 {
            proof {
                assert(!constraints_ok(pre.validity, body_len as int, unmatched));
                assert(spec_validate(level as int, pre, current_block_number) == Err::<
                    (BundleV, ValidationV),
                    ErrorKind,
                >(ErrorKind::InvalidBundleConstraints));
            }
            return Err(BundleValidationError::InvalidBundleConstraints);
        }
        proof {
            assert(cfgs.subrange(0, j + 1).drop_last() =~= cfgs.subrange(0, j as int));
            assert(cfgs.subrange(0, j + 1).last() == cfgs[j as int]);
        }
        if total_cfg + pc > 100 {
            proof {
                lemma_sum_config_prefix(cfgs, j + 1);
                assert(sum_config(cfgs) > 100);
                assert(!constraints_ok(pre.validity, body_len as int, unmatched));
                assert(spec_validate(level as int, pre, current_block_number) == Err::<
                    (BundleV, ValidationV),
                    ErrorKind,
                >(ErrorKind::InvalidBundleConstraints));
            }
            return Err(BundleValidationError::InvalidBundleConstraints);
        }
        total_cfg = total_cfg + pc;
        j = j + 1;
    }
    proof {
        assert(cfgs.subrange(0, cfg_len as int) =~= cfgs);
        assert(sum_config(cfgs) <= 100);
    }

    let ghost refunds = pre.validity.refund;
    let refund_len = bundle.validity.refund.len();
    let mut seen: Vec<u64> = Vec::new();
    let mut total_ref: u64 = 0;
    let mut j2: usize = 0;
    proof {
        assert(refunds == bundle.validity.refund@);
        assert(refunds.subrange(0, 0) =~= Seq::<RefundConstraint>::empty());
    }
    while j2 < refund_len
        invariant
            refund_len == refunds.len(),
            0 <= j2 <= refund_len,
            refunds == bundle.validity.refund@,
            pre.body.len() == body_len,
            total_ref <= 100,
            total_ref as int == sum_refund(refunds.subrange(0, j2 as int)),
            forall|k: int|
                0 <= k < j2 ==> (#[trigger] refunds[k]).body_idx < body_len && refunds[k].percent
                    <= 100,
            seen@.len() == j2,
            forall|k: int| 0 <= k < j2 ==> seen@[k] == (#[trigger] refunds[k]).body_idx,
            forall|k: int, l: int|
                0 <= k < l < j2 ==> (#[trigger] refunds[k]).body_idx != (
                #[trigger] refunds[l]).body_idx,
        decreases refund_len - j2,
    {
        let rc = bundle.validity.refund[j2];
        if rc.body_idx >= body_len as u64 {
            proof {
                assert(!constraints_ok(pre.validity, body_len as int, unmatched));
                assert(spec_validate(level as int, pre, current_block_number) == Err::<
                    (BundleV, ValidationV),
                    ErrorKind,
                >(ErrorKind::InvalidBundleConstraints));
            }
            return Err(BundleValidationError::InvalidBundleConstraints);
        }
        if contains_u64(&seen, rc.body_idx) {
            proof {
                let k = choose|k: int| 0 <= k < seen@.len() && seen@[k] == rc.body_idx;
                assert(refunds[k].body_idx == refunds[j2 as int].body_idx);
                assert(!constraints_ok(pre.validity, body_len as int, unmatched));
                assert(spec_validate(level as int, pre, current_block_number) == Err::<
                    (BundleV, ValidationV),
                    ErrorKind,
                >(ErrorKind::InvalidBundleConstraints));
            }
            return Err(BundleValidationError::InvalidBundleConstraints);
        }
        seen.push(rc.body_idx);
        if rc.percent > 100 {
            proof {
                assert(!constraints_ok(pre.validity, body_len as int, unmatched));
                assert(spec_validate(level as int, pre, current_block_number) == Err::<
                    (BundleV, ValidationV),
                    ErrorKind,
                >(ErrorKind::InvalidBundleConstraints));
            }
            return Err(BundleValidationError::InvalidBundleConstraints);
        }
        proof {
            assert(refunds.subrange(0, j2 + 1).drop_last() =~= refunds.subrange(0, j2 as int));
            assert(refunds.subrange(0, j2 + 1).last() == refunds[j2 as int]);
        }
        if total_ref + rc.percent > 100 {
            proof {
                lemma_sum_refund_prefix(refunds, j2 + 1);
                assert(sum_refund(refunds) > 100);
                assert(!constraints_ok(pre.validity, body_len as int, unmatched));
                assert(spec_validate(level as int, pre, current_block_number) == Err::<
                    (BundleV, ValidationV),
                    ErrorKind,
                >(ErrorKind::InvalidBundleConstraints));
            }
            return Err(BundleValidationError::InvalidBundleConstraints);
        }
        total_ref = total_ref + rc.percent;
        j2 = j2 + 1;
    }
    proof {
        assert(refunds.subrange(0, refund_len as int) =~= refunds);
        assert(sum_refund(refunds) <= 100);
        assert(constraints_ok(pre.validity, body_len as int, unmatched));
    }

    match &bundle.privacy {
        Some(p) => {
            if unmatched && p.hints.len() > 0 {
                proof {
                    assert(spec_validate(level as int, pre, current_block_number) == Err::<
                        (BundleV, ValidationV),
                        ErrorKind,
                    >(ErrorKind::InvalidBundlePrivacy));
                }
                return Err(BundleValidationError::InvalidBundlePrivacy);
            }
        },
        None => {},
    }

    let ghost prv2 = match w.prv {
        None => None,
        Some(p) => if p.hints.len() > 0 {
            Some(BundlePrivacyV { hints: p.hints.push(Hint::Hash), ..p })
        } else {
            Some(p)
        },
    };
    let push_hint = match &bundle.privacy {
        Some(p) => p.hints.len() > 0,
        None => false,
    };
    if push_hint {
        match &mut bundle.privacy {
            Some(p) => {
                p.hints.push(Hint::Hash);
            },
            None => {},
        }
    }
    proof {
        assert(privacy_view(bundle.privacy) == prv2);
    }
    let want_refund_bad = match &bundle.privacy {
        Some(p) => p.want_refund > 100,
        None => false,
    };
    if want_refund_bad {
        proof {
            assert(spec_validate(level as int, pre, current_block_number) == Err::<
                (BundleV, ValidationV),
                ErrorKind,
            >(ErrorKind::InvalidBundlePrivacy));
        }
        return Err(BundleValidationError::InvalidBundlePrivacy);
    }

    bundle.metadata = None;
    proof {
        let b2 = BundleV {
            version: pre.version,
            inclusion: w.incl,
            body: w.items,
            validity: pre.validity,
            privacy: prv2,
            metadata: None,
        };
        assert(bundle@ == b2);
        assert(spec_validate(level as int, pre, current_block_number) == Ok::<
            (BundleV, ValidationV),
            ErrorKind,
        >((
            b2,
            ValidationV {
                hash: crate::hashing::canonical_hash(w.hashes),
                txs: w.txs,
                unmatched: pre.body[0] is Hash,
            },
        )));
        assert(hash@ == crate::hashing::canonical_hash(w.hashes));
    }
    Ok(BundleValidation::new(hash, txs, unmatched))
}

} // verus!
