//! Merging a nested bundle's constraints into its parent's.
//!
//! Descending into a nested bundle narrows the parent's inclusion window to
//! the overlap of the two and intersects the parent's builder allow-list
//! with the child's. A child with no privacy section at all clears the
//! parent's allow-list entirely: a child with no stated restriction is
//! treated as visible to every builder.

use vstd::prelude::*;

use crate::types::{
    effective_max_block, string_views, BundleInclusion, BundlePrivacy, BundlePrivacyV,
};

verus! {

/// The merged inclusion window, or `None` when the two windows are
/// disjoint. Each window's upper bound is read as validation reads it (an
/// absent or zero `max_block` counts as the owning `block`); the merged
/// window is the intersection: its `block` is the larger of the two lower
/// bounds and its `max_block` the smaller of the two effective upper
/// bounds. The merge fails exactly when that intersection is empty.
pub open spec fn spec_merge_inclusion(top: BundleInclusion, inner: BundleInclusion) -> Option<
    BundleInclusion,
> {
    let top_max = effective_max_block(top);
    let inner_max = effective_max_block(inner);
    let merged_block = if top.block < inner.block {
        inner.block
    } else {
        top.block
    };
    let merged_max = if top_max < inner_max {
        top_max
    } else {
        inner_max
    };
    if merged_block > merged_max {
        None
    } else {
        Some(BundleInclusion { block: merged_block, max_block: Some(merged_max) })
    }
}

/// Narrow `top_level_inclusion` to its overlap with `inner_inclusion`;
/// fail, leaving it unchanged, when the two effective windows are
/// disjoint.
pub fn merge_inclusion_intervals(
    top_level_inclusion: &mut BundleInclusion,
    inner_inclusion: &BundleInclusion,
) -> (r: Result<(), String>)
    ensures
        r is Ok <==> spec_merge_inclusion(*old(top_level_inclusion), *inner_inclusion) is Some,
        match spec_merge_inclusion(*old(top_level_inclusion), *inner_inclusion) {
            Some(merged) => *final(top_level_inclusion) == merged,
            None => *final(top_level_inclusion) == *old(top_level_inclusion),
        },
{
    let top_level_max_block = match top_level_inclusion.max_block {
        Some(m) => if m == 0 {
            top_level_inclusion.block
        } else {
            m
        },
        None => top_level_inclusion.block,
    };
    let inner_max_block = match inner_inclusion.max_block {
        Some(m) => if m == 0 {
            inner_inclusion.block
        } else {
            m
        },
        None => inner_inclusion.block,
    };
    let merged_block = if top_level_inclusion.block < inner_inclusion.block {
        inner_inclusion.block
    } else {
        top_level_inclusion.block
    };
    let merged_max = if top_level_max_block < inner_max_block {
        top_level_max_block
    } else {
        inner_max_block
    };
    if merged_block > merged_max {
        return Err(no_overlap_message());
    }
    top_level_inclusion.block = merged_block;
    top_level_inclusion.max_block = Some(merged_max);
    Ok(())
}

/// The message reported when two inclusion windows do not overlap.
fn no_overlap_message() -> String {
    "no overlap between inclusions".to_owned()
}

/// The intersection of the two builder lists, keeping the first occurrence
/// of each parent entry that the child also lists; `seen` holds the
/// entries already emitted.
pub open spec fn inter_builders(
    parent: Seq<Seq<char>>,
    child: Seq<Seq<char>>,
    seen: Set<Seq<char>>,
) -> Seq<Seq<char>>
    decreases parent.len(),
{
    if parent.len() == 0 {
        Seq::empty()
    } else {
        let h = parent[0];
        let rest = parent.subrange(1, parent.len() as int);
        if child.contains(h) && !seen.contains(h) {
            seq![h] + inter_builders(rest, child, seen.insert(h))
        } else {
            inter_builders(rest, child, seen)
        }
    }
}

/// The model of an optional privacy section.
pub open spec fn privacy_view(p: Option<BundlePrivacy>) -> Option<BundlePrivacyV> {
    match p {
        Some(q) => Some(q@),
        None => None,
    }
}

/// The merged privacy section: no parent privacy is left alone, a child
/// without privacy clears the parent's builder list, and otherwise the
/// parent's builders become the deduplicated intersection with the
/// child's. Hints and `want_refund` are untouched.
pub open spec fn spec_merge_privacy(
    top: Option<BundlePrivacyV>,
    inner: Option<BundlePrivacyV>,
) -> Option<BundlePrivacyV> {
    match top {
        None => None,
        Some(t) => match inner {
            None => Some(BundlePrivacyV { builders: Seq::empty(), ..t }),
            Some(inr) => Some(
                BundlePrivacyV {
                    builders: inter_builders(t.builders, inr.builders, Set::empty()),
                    ..t
                },
            ),
        },
    }
}

/// Whether some element of `v` has the contents of `x`.
fn vec_contains_string(v: &Vec<String>, x: &String) -> (r: bool)
    ensures
        r == string_views(v@).contains(x@),
{
    let ghost views = string_views(v@);
    let n = v.len();
    let mut i: usize = 0;
    while i < n
        invariant
            n == v@.len(),
            0 <= i <= n,
            views == string_views(v@),
            forall|k: int| 0 <= k < i ==> views[k] != x@,
        decreases n - i,
    {
        if v[i] == *x {
            assert(views[i as int] == x@);
            return true;
        }
        i = i + 1;
    }
    assert(forall|k: int| 0 <= k < views.len() ==> views[k] != x@);
    false
}

/// Replace the parent's builder allow-list by its intersection with the
/// child's, clearing it when the child has no privacy section; do nothing
/// when the parent has none.
pub fn merge_privacy_builders(
    top_level_privacy: &mut Option<BundlePrivacy>,
    inner_privacy: &Option<BundlePrivacy>,
) ensures
    privacy_view(*final(top_level_privacy)) == spec_merge_privacy(
        privacy_view(*old(top_level_privacy)),
        privacy_view(*inner_privacy),
    ),
{
    match top_level_privacy {
        None => {},
        Some(t) => {
            match inner_privacy {
                None => {
                    t.builders = Vec::new();
                    proof {
                        assert(string_views(t.builders@) =~= Seq::<Seq<char>>::empty());
                    }
                },
                Some(inr) => {
                    let ghost parent_views = string_views(t.builders@);
                    let ghost child_views = string_views(inr.builders@);
                    let mut result: Vec<String> = Vec::new();
                    let n = t.builders.len();
                    let mut i: usize = 0;
                    proof {
                        assert(string_views(result@) =~= Seq::<Seq<char>>::empty());
                        assert(string_views(result@).to_set() =~= Set::<Seq<char>>::empty());
                        assert(parent_views.subrange(0, n as int) =~= parent_views);
                        assert(string_views(result@) + inter_builders(
                            parent_views,
                            child_views,
                            Set::empty(),
                        ) =~= inter_builders(parent_views, child_views, Set::empty()));
                    }
                    while i < n
                        invariant
                            n == t.builders@.len(),
                            0 <= i <= n,
                            parent_views == string_views(t.builders@),
                            child_views == string_views(inr.builders@),
                            inter_builders(parent_views, child_views, Set::empty()) == string_views(
                                result@,
                            ) + inter_builders(
                                parent_views.subrange(i as int, n as int),
                                child_views,
                                string_views(result@).to_set(),
                            ),
                        decreases n - i,
                    {
                        let ghost result_views = string_views(result@);
                        let ghost suffix = parent_views.subrange(i as int, n as int);
                        let b = &t.builders[i];
                        let in_child = vec_contains_string(&inr.builders, b);
                        let in_result = vec_contains_string(&result, b);
                        proof {
                            assert(suffix[0] == b@);
                            assert(suffix.subrange(1, (n - i) as int) =~= parent_views.subrange(
                                i + 1,
                                n as int,
                            ));
                        }
                        if in_child && !in_result {
                            result.push(b.clone());
                            proof {
                                let new_views = string_views(result@);
                                assert(new_views =~= result_views.push(b@));
                                result_views.lemma_push_to_set_commute(b@);
                                assert(new_views.to_set() == result_views.to_set().insert(b@));
                                assert(result_views + (seq![b@] + inter_builders(
                                    parent_views.subrange(i + 1, n as int),
                                    child_views,
                                    result_views.to_set().insert(b@),
                                )) =~= new_views + inter_builders(
                                    parent_views.subrange(i + 1, n as int),
                                    child_views,
                                    new_views.to_set(),
                                ));
                            }
                        }
                        i = i + 1;
                    }
                    proof {
                        assert(parent_views.subrange(n as int, n as int).len() == 0);
                        assert(inter_builders(
                            parent_views.subrange(n as int, n as int),
                            child_views,
                            string_views(result@).to_set(),
                        ) == Seq::<Seq<char>>::empty());
                        assert(string_views(result@) + Seq::<Seq<char>>::empty() =~= string_views(
                            result@,
                        ));
                    }
                    t.builders = result;
                },
            }
        },
    }
}

} // verus!
