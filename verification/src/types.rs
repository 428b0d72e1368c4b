use vstd::prelude::*;

verus! {

broadcast use vstd::std_specs::vec::group_vec_axioms, vstd::seq::group_seq_axioms;

/// A 32-byte transaction (or bundle) hash.
pub type TxHash = [u8; 32];

/// Closed block-number interval in which a bundle asks to be included.
/// `max_block` is optional; validation treats an absent or zero value as
/// equal to `block`.
#[derive(Clone, Copy, Debug)]
pub struct BundleInclusion {
    pub block: u64,
    pub max_block: Option<u64>,
}

/// Named fields a submitter permits block builders to observe.
#[derive(Clone, Copy, Debug, PartialEq, Eq, Structural)]
pub enum Hint {
    Calldata,
    ContractAddress,
    FunctionSelector,
    Logs,
    TxHash,
    Hash,
}

/// Privacy constraints: revealable hints, allowed builders, and the refund
/// percentage the submitter asks for.
#[derive(Clone, Debug)]
pub struct BundlePrivacy {
    pub hints: Vec<Hint>,
    pub builders: Vec<String>,
    pub want_refund: u64,
}

/// A rule assigning a percentage of captured value back to one body position.
#[derive(Clone, Copy, Debug, PartialEq, Eq, Structural)]
pub struct RefundConstraint {
    pub body_idx: u64,
    pub percent: u64,
}

/// A configured refund share.
#[derive(Clone, Copy, Debug, PartialEq, Eq, Structural)]
pub struct RefundConfig {
    pub percent: u64,
}

/// Refund constraints of a bundle.
#[derive(Clone, Debug)]
pub struct BundleValidity {
    pub refund: Vec<RefundConstraint>,
    pub refund_config: Vec<RefundConfig>,
}

/// One element of a bundle body: a precomputed hash of a transaction the
/// relay does not hold ("unmatched"), raw signed-transaction bytes, or a
/// nested bundle.
#[derive(Debug)]
pub enum BundleBodyItem {
    Hash(TxHash),
    Tx(Vec<u8>),
    Bundle(Bundle),
}

/// A tree-shaped inclusion request: an ordered body of transactions and
/// nested bundles together with inclusion, refund and privacy constraints.
#[derive(Debug)]
pub struct Bundle {
    pub version: String,
    pub inclusion: BundleInclusion,
    pub body: Vec<BundleBodyItem>,
    pub validity: BundleValidity,
    pub privacy: Option<BundlePrivacy>,
    pub metadata: Option<String>,
}

/// Mathematical model of [`BundlePrivacy`].
pub ghost struct BundlePrivacyV {
    pub hints: Seq<Hint>,
    pub builders: Seq<Seq<char>>,
    pub want_refund: u64,
}

/// Mathematical model of [`BundleValidity`].
pub ghost struct BundleValidityV {
    pub refund: Seq<RefundConstraint>,
    pub refund_config: Seq<RefundConfig>,
}

/// Mathematical model of [`BundleBodyItem`].
pub ghost enum BundleBodyItemV {
    Hash(Seq<u8>),
    Tx(Seq<u8>),
    Bundle(BundleV),
}

/// Mathematical model of [`Bundle`].
pub ghost struct BundleV {
    pub version: Seq<char>,
    pub inclusion: BundleInclusion,
    pub body: Seq<BundleBodyItemV>,
    pub validity: BundleValidityV,
    pub privacy: Option<BundlePrivacyV>,
    pub metadata: Option<Seq<char>>,
}

/// The upper bound of an inclusion window as validation reads it: an
/// absent or zero `max_block` counts as the window's own `block`.
pub open spec fn effective_max_block(incl: BundleInclusion) -> u64 {
    match incl.max_block {
        Some(m) => if m == 0 {
            incl.block
        } else {
            m
        },
        None => incl.block,
    }
}

/// The character sequences of a sequence of strings, elementwise.
pub open spec fn string_views(v: Seq<String>) -> Seq<Seq<char>> {
    Seq::new(v.len(), |i: int| v[i]@)
}

impl View for BundlePrivacy {
    type V = BundlePrivacyV;

    open spec fn view(&self) -> BundlePrivacyV {
        BundlePrivacyV {
            hints: self.hints@,
            builders: string_views(self.builders@),
            want_refund: self.want_refund,
        }
    }
}

impl View for BundleValidity {
    type V = BundleValidityV;

    open spec fn view(&self) -> BundleValidityV {
        BundleValidityV { refund: self.refund@, refund_config: self.refund_config@ }
    }
}

impl View for BundleBodyItem {
    type V = BundleBodyItemV;

    open spec fn view(&self) -> BundleBodyItemV
        decreases self,
    {
        match self {
            BundleBodyItem::Hash(h) => BundleBodyItemV::Hash(h@),
            BundleBodyItem::Tx(raw) => BundleBodyItemV::Tx(raw@),
            BundleBodyItem::Bundle(b) => BundleBodyItemV::Bundle(b@),
        }
    }
}

/// The models of the elements of a body sequence, in order.
pub open spec fn view_items(s: Seq<BundleBodyItem>) -> Seq<BundleBodyItemV>
    decreases s,
{
    if s.len() == 0 {
        Seq::empty()
    } else {
        seq![s[0]@] + view_items(s.subrange(1, s.len() as int))
    }
}

/// The models of the elements of a body vector, in order.
pub open spec fn view_body(v: Vec<BundleBodyItem>) -> Seq<BundleBodyItemV>
    decreases v,
{
    view_items(v@)
}

/// `view_items` maps the sequence elementwise.
pub broadcast proof fn lemma_view_items(s: Seq<BundleBodyItem>)
    ensures
        (#[trigger] view_items(s)).len() == s.len(),
        forall|i: int| 0 <= i < s.len() ==> view_items(s)[i] == s[i]@,
    decreases s.len(),
{
    if s.len() > 0 {
        let tail = s.subrange(1, s.len() as int);
        lemma_view_items(tail);
        assert(view_items(s) == seq![s[0]@] + view_items(tail));
        assert(seq![s[0]@].len() == 1);
        assert forall|i: int| 0 <= i < s.len() implies view_items(s)[i] == s[i]@ by {
            if i > 0 {
                assert((seq![s[0]@] + view_items(tail))[i] == view_items(tail)[i - 1]);
                assert(tail[i - 1] == s[i]);
            }
        }
    }
}

/// Appending one element extends the elementwise model by its model.
pub proof fn lemma_view_items_push(s: Seq<BundleBodyItem>, x: BundleBodyItem)
    ensures
        view_items(s.push(x)) == view_items(s).push(x@),
{
    lemma_view_items(s);
    lemma_view_items(s.push(x));
    assert(view_items(s.push(x)) =~= view_items(s).push(x@));
}

impl View for Bundle {
    type V = BundleV;

    open spec fn view(&self) -> BundleV
        decreases self,
    {
        BundleV {
            version: self.version@,
            inclusion: self.inclusion,
            body: view_body(self.body),
            validity: self.validity@,
            privacy: match self.privacy {
                Some(p) => Some(p@),
                None => None,
            },
            metadata: match self.metadata {
                Some(m) => Some(m@),
                None => None,
            },
        }
    }
}

/// The outcome of a successful validation: the canonical hash, the
/// flattened transaction count, and whether the first body element is an
/// unmatched hash reference.
#[derive(Clone, Copy, Debug)]
pub struct BundleValidation {
    pub hash: TxHash,
    pub txs: u64,
    pub unmatched: bool,
}

impl BundleValidation {
    pub fn new(hash: TxHash, txs: u64, unmatched: bool) -> (r: Self)
        ensures
            r.hash == hash && r.txs == txs && r.unmatched == unmatched,
    {
        Self { hash, txs, unmatched }
    }
}

/// A bundle hash as the transport layer refers to one.
#[derive(Clone, Copy, Debug)]
pub struct BundleHash {
    pub hash: TxHash,
}

/// Reply to a bundle submission: the canonical hash of the accepted bundle.
#[derive(Clone, Copy, Debug)]
pub struct SendBundleResponse {
    pub bundle_hash: TxHash,
}

/// Reply to a simulation request.
#[derive(Clone, Copy, Debug)]
pub struct SimulateBundleResponse {
    pub success: bool,
}

/// Reply to a cancellation request.
#[derive(Clone, Copy, Debug)]
pub struct CancelBundleResponse {
    pub cancelled: bool,
}

} // verus!
