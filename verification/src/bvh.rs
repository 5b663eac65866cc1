//! Bounding-volume hierarchy construction and stackless flattening.
//!
//! The hierarchy is built by recursive median splits over the primitive
//! sequence, cutting each range in half until a range fits in one leaf, and
//! is laid out depth first while it is built: a subtree over a range occupies
//! a contiguous slot run, every node's miss jump (`exit_index`) is the first
//! slot after its subtree, and an internal node's hit jump (`entry_index`) is
//! the next slot. Leaves own contiguous primitive runs starting at their
//! `face_index`, and each primitive is pointed back at its leaf. For a fixed
//! input primitive order the whole layout is reproducible.
use vstd::prelude::*;
use crate::geometry::Aabb;
use crate::types::GpuNode;
use crate::types::GpuPrimitive;
use crate::types::LEAF_ENTRY_SENTINEL;

verus! {

/// Most primitives a leaf may hold; a larger range is split at its median.
pub const LEAF_MAX_PRIMITIVES: usize = 4;

/// The smallest box covering the primitives of the range `[lo, hi)`.
pub open spec fn box_of_range(prims: Seq<GpuPrimitive>, lo: int, hi: int) -> Aabb
    decreases hi - lo,
{
    if hi <= lo {
        Aabb::spec_empty()
    } else {
        box_of_range(prims, lo, hi - 1).spec_union(prims[hi - 1].spec_aabb())
    }
}

/// How many nodes the hierarchy over `n` primitives has: one per leaf range,
/// one per split.
pub open spec fn subtree_node_count(n: int) -> int
    decreases n,
{
    if n <= 0 {
        0
    } else if n <= LEAF_MAX_PRIMITIVES as int {
        1
    } else {
        1 + subtree_node_count(n / 2) + subtree_node_count(n - n / 2)
    }
}

/// The flattened node run of the subtree over the primitive range `[lo, hi)`,
/// laid out depth first starting at slot `slot`.
pub open spec fn spec_build_nodes(prims: Seq<GpuPrimitive>, lo: int, hi: int, slot: int) -> Seq<
    GpuNode,
>
    recommends
        lo < hi,
    decreases hi - lo,
{
    let b = box_of_range(prims, lo, hi);
    if hi - lo <= LEAF_MAX_PRIMITIVES as int {
        seq![
            GpuNode {
                min: b.min,
                max: b.max,
                entry_index: LEAF_ENTRY_SENTINEL,
                exit_index: (slot + 1) as u32,
                face_index: lo as u32,
            },
        ]
    } else {
        let mid = lo + (hi - lo) / 2;
        let left = spec_build_nodes(prims, lo, mid, slot + 1);
        let right = spec_build_nodes(prims, mid, hi, slot + 1 + left.len());
        seq![
            GpuNode {
                min: b.min,
                max: b.max,
                entry_index: (slot + 1) as u32,
                exit_index: (slot + 1 + left.len() + right.len()) as u32,
                face_index: 0,
            },
        ] + left + right
    }
}

/// The slot of the leaf that ends up owning primitive `k` when the subtree
/// over `[lo, hi)` is laid out starting at slot `slot`.
pub open spec fn spec_node_slot(k: int, lo: int, hi: int, slot: int) -> int
    recommends
        lo <= k < hi,
    decreases hi - lo,
{
    if hi - lo <= LEAF_MAX_PRIMITIVES as int {
        slot
    } else {
        let mid = lo + (hi - lo) / 2;
        if k < mid {
            spec_node_slot(k, lo, mid, slot + 1)
        } else {
            spec_node_slot(k, mid, hi, slot + 1 + subtree_node_count(mid - lo))
        }
    }
}

/// A nonempty range needs at least one node, and never more than two per
/// primitive.
pub proof fn lemma_count_bounds(n: int)
    requires
        n >= 1,
    ensures
        1 <= subtree_node_count(n) <= 2 * n - 1,
    decreases n,
{
    if n > LEAF_MAX_PRIMITIVES as int {
        lemma_count_bounds(n / 2);
        lemma_count_bounds(n - n / 2);
    }
}

/// The flattened run has exactly the counted number of nodes.
pub proof fn lemma_build_nodes_len(prims: Seq<GpuPrimitive>, lo: int, hi: int, slot: int)
    requires
        lo < hi,
    ensures
        spec_build_nodes(prims, lo, hi, slot).len() == subtree_node_count(hi - lo),
    decreases hi - lo,
{
    if hi - lo > LEAF_MAX_PRIMITIVES as int {
        let mid = lo + (hi - lo) / 2;
        lemma_build_nodes_len(prims, lo, mid, slot + 1);
        let left = spec_build_nodes(prims, lo, mid, slot + 1);
        lemma_build_nodes_len(prims, mid, hi, slot + 1 + left.len());
    }
}

/// A range's box covers the box of each primitive in the range.
pub proof fn lemma_box_of_range_contains_prim(prims: Seq<GpuPrimitive>, lo: int, hi: int, k: int)
    requires
        lo <= k < hi,
    ensures
        box_of_range(prims, lo, hi).contains(prims[k].spec_aabb()),
    decreases hi - lo,
{
    crate::geometry::lemma_union_contains_operands(
        box_of_range(prims, lo, hi - 1),
        prims[hi - 1].spec_aabb(),
    );
    if k < hi - 1 {
        lemma_box_of_range_contains_prim(prims, lo, hi - 1, k);
        crate::geometry::lemma_union_preserves_contains(
            box_of_range(prims, lo, hi - 1),
            prims[hi - 1].spec_aabb(),
            prims[k].spec_aabb(),
        );
    }
}

/// A range's box covers the empty box.
pub proof fn lemma_box_of_range_contains_empty(prims: Seq<GpuPrimitive>, lo: int, hi: int)
    ensures
        box_of_range(prims, lo, hi).contains(Aabb::spec_empty()),
    decreases hi - lo,
{
    if hi <= lo {
        crate::geometry::lemma_contains_reflexive(Aabb::spec_empty());
    } else {
        lemma_box_of_range_contains_empty(prims, lo, hi - 1);
        crate::geometry::lemma_union_preserves_contains(
            box_of_range(prims, lo, hi - 1),
            prims[hi - 1].spec_aabb(),
            Aabb::spec_empty(),
        );
    }
}

/// A range's box covers the box of each prefix of the range.
pub proof fn lemma_box_of_range_prefix(prims: Seq<GpuPrimitive>, lo: int, m: int, hi: int)
    requires
        lo <= m <= hi,
    ensures
        box_of_range(prims, lo, hi).contains(box_of_range(prims, lo, m)),
    decreases hi - m,
{
    if m == hi {
        crate::geometry::lemma_contains_reflexive(box_of_range(prims, lo, hi));
    } else {
        lemma_box_of_range_prefix(prims, lo, m, hi - 1);
        crate::geometry::lemma_union_preserves_contains(
            box_of_range(prims, lo, hi - 1),
            prims[hi - 1].spec_aabb(),
            box_of_range(prims, lo, m),
        );
    }
}

/// A range's box covers the box of each suffix of the range.
pub proof fn lemma_box_of_range_suffix(prims: Seq<GpuPrimitive>, lo: int, m: int, hi: int)
    requires
        lo <= m <= hi,
    ensures
        box_of_range(prims, lo, hi).contains(box_of_range(prims, m, hi)),
    decreases hi - m,
{
    if m == hi {
        lemma_box_of_range_contains_empty(prims, lo, hi);
    } else {
        lemma_box_of_range_suffix(prims, lo, m, hi - 1);
        crate::geometry::lemma_union_monotone(
            box_of_range(prims, lo, hi - 1),
            box_of_range(prims, m, hi - 1),
            prims[hi - 1].spec_aabb(),
        );
    }
}

/// Range boxes read only the corner positions, never the node back-reference.
pub proof fn lemma_box_of_range_congruent(
    s1: Seq<GpuPrimitive>,
    s2: Seq<GpuPrimitive>,
    lo: int,
    hi: int,
)
    requires
        forall|k: int| lo <= k < hi ==> (#[trigger] s1[k]).vertices == s2[k].vertices,
    ensures
        box_of_range(s1, lo, hi) == box_of_range(s2, lo, hi),
    decreases hi - lo,
{
    if hi > lo {
        lemma_box_of_range_congruent(s1, s2, lo, hi - 1);
        assert(s1[hi - 1].spec_aabb() == s2[hi - 1].spec_aabb());
    }
}

/// The flattened run reads only the corner positions of the range.
pub proof fn lemma_build_nodes_congruent(
    s1: Seq<GpuPrimitive>,
    s2: Seq<GpuPrimitive>,
    lo: int,
    hi: int,
    slot: int,
)
    requires
        lo < hi,
        forall|k: int| lo <= k < hi ==> (#[trigger] s1[k]).vertices == s2[k].vertices,
    ensures
        spec_build_nodes(s1, lo, hi, slot) == spec_build_nodes(s2, lo, hi, slot),
    decreases hi - lo,
{
    lemma_box_of_range_congruent(s1, s2, lo, hi);
    if hi - lo > LEAF_MAX_PRIMITIVES as int {
        let mid = lo + (hi - lo) / 2;
        lemma_build_nodes_congruent(s1, s2, lo, mid, slot + 1);
        lemma_build_nodes_congruent(
            s1,
            s2,
            mid,
            hi,
            slot + 1 + spec_build_nodes(s1, lo, mid, slot + 1).len(),
        );
    }
}

/// Structural soundness of the flattened run `ns` of the subtree over
/// `prims[lo..hi)` laid out from slot `slot`. Slot fields are read relative
/// to the run's base: node `i` of the run sits in absolute slot `slot + i`.
///
/// It says: the run has exactly the counted number of nodes; the root's box
/// is the whole range's box and its miss jump leaves the run; every miss
/// jump lands past its node and inside or just past the run; an internal
/// node's hit jump is the next slot, its box covers both children's boxes
/// (the left child is the next node, the right child is the slot the left
/// child's miss jump names); every leaf's primitive run starts inside the
/// range; and every primitive of the range is owned by a leaf whose box
/// covers the primitive's box, whose `face_index` opens a contiguous run of
/// primitives all owned by that same leaf.
pub open spec fn subtree_flat_wf(
    prims: Seq<GpuPrimitive>,
    lo: int,
    hi: int,
    slot: int,
    ns: Seq<GpuNode>,
) -> bool {
    &&& ns.len() == subtree_node_count(hi - lo)
    &&& ns[0].spec_aabb() == box_of_range(prims, lo, hi)
    &&& ns[0].exit_index as int == slot + ns.len()
    &&& forall|i: int|
        0 <= i < ns.len() ==> slot + i < (#[trigger] ns[i]).exit_index as int <= slot + ns.len()
    &&& forall|i: int|
        0 <= i < ns.len() && (#[trigger] ns[i]).is_leaf() ==> lo <= (ns[i].face_index as int) < hi
    &&& forall|i: int|
        0 <= i < ns.len() && !(#[trigger] ns[i]).is_leaf() ==> {
            &&& ns[i].entry_index as int == slot + i + 1
            &&& i + 1 < ns.len()
            &&& ns[i + 1].exit_index < ns[i].exit_index
            &&& ns[i].spec_aabb().contains(ns[i + 1].spec_aabb())
            &&& ns[i].spec_aabb().contains(ns[ns[i + 1].exit_index as int - slot].spec_aabb())
        }
    &&& forall|k: int|
        lo <= k < hi ==> {
            let s = #[trigger] spec_node_slot(k, lo, hi, slot);
            &&& slot <= s < slot + ns.len()
            &&& ns[s - slot].is_leaf()
            &&& ns[s - slot].face_index <= k
            &&& spec_node_slot(ns[s - slot].face_index as int, lo, hi, slot) == s
            &&& ns[s - slot].spec_aabb().contains(prims[k].spec_aabb())
        }
    &&& forall|k: int, j: int|
        #![trigger spec_node_slot(k, lo, hi, slot), spec_node_slot(j, lo, hi, slot)]
        lo <= k < hi && ns[spec_node_slot(k, lo, hi, slot) - slot].face_index <= j <= k
            ==> spec_node_slot(j, lo, hi, slot) == spec_node_slot(k, lo, hi, slot)
}

/// Shape of the flattened run: its length, the root's box and miss jump,
/// every node's miss-jump bounds, every leaf's `face_index` range, and every
/// internal node's hit jump.
proof fn lemma_flat_shape(prims: Seq<GpuPrimitive>, lo: int, hi: int, slot: int)
    requires
        0 <= lo < hi <= 0x4000_0000,
        0 <= slot,
        slot + subtree_node_count(hi - lo) <= 0x8000_0000,
    ensures
        spec_build_nodes(prims, lo, hi, slot).len() == subtree_node_count(hi - lo),
        spec_build_nodes(prims, lo, hi, slot)[0].spec_aabb() == box_of_range(prims, lo, hi),
        spec_build_nodes(prims, lo, hi, slot)[0].exit_index as int == slot + subtree_node_count(
            hi - lo,
        ),
        forall|i: int|
            0 <= i < subtree_node_count(hi - lo) ==> slot + i < (#[trigger] spec_build_nodes(
                prims,
                lo,
                hi,
                slot,
            )[i]).exit_index as int <= slot + subtree_node_count(hi - lo),
        forall|i: int|
            0 <= i < subtree_node_count(hi - lo) && (#[trigger] spec_build_nodes(
                prims,
                lo,
                hi,
                slot,
            )[i]).is_leaf() ==> lo <= (spec_build_nodes(prims, lo, hi, slot)[i].face_index as int)
                < hi,
        forall|i: int|
            0 <= i < subtree_node_count(hi - lo) && !(#[trigger] spec_build_nodes(
                prims,
                lo,
                hi,
                slot,
            )[i]).is_leaf() ==> spec_build_nodes(prims, lo, hi, slot)[i].entry_index as int == slot
                + i + 1 && i + 1 < subtree_node_count(hi - lo),
    decreases hi - lo,
{
    let ns = spec_build_nodes(prims, lo, hi, slot);
    lemma_build_nodes_len(prims, lo, hi, slot);
    lemma_count_bounds(hi - lo);
    if hi - lo > LEAF_MAX_PRIMITIVES as int {
        let mid = lo + (hi - lo) / 2;
        let nl = subtree_node_count(mid - lo);
        let nr = subtree_node_count(hi - mid);
        let left = spec_build_nodes(prims, lo, mid, slot + 1);
        let right = spec_build_nodes(prims, mid, hi, slot + 1 + nl);
        lemma_build_nodes_len(prims, lo, mid, slot + 1);
        lemma_count_bounds(mid - lo);
        lemma_count_bounds(hi - mid);
        lemma_flat_shape(prims, lo, mid, slot + 1);
        lemma_flat_shape(prims, mid, hi, slot + 1 + nl);
        assert(ns.len() == 1 + nl + nr);
        assert(forall|j: int| 0 <= j < nl ==> ns[1 + j] == left[j]);
        assert(forall|j: int| 0 <= j < nr ==> ns[1 + nl + j] == right[j]);
        assert(!ns[0].is_leaf());
    }
}

/// Every internal node's box covers the boxes of both of its children, and
/// the left child's miss jump stays strictly below its parent's.
proof fn lemma_flat_boxes(prims: Seq<GpuPrimitive>, lo: int, hi: int, slot: int)
    requires
        0 <= lo < hi <= 0x4000_0000,
        0 <= slot,
        slot + subtree_node_count(hi - lo) <= 0x8000_0000,
    ensures
        forall|i: int|
            0 <= i < subtree_node_count(hi - lo) && !(#[trigger] spec_build_nodes(
                prims,
                lo,
                hi,
                slot,
            )[i]).is_leaf() ==> {
                let ns = spec_build_nodes(prims, lo, hi, slot);
                &&& ns[i + 1].exit_index < ns[i].exit_index
                &&& ns[i].spec_aabb().contains(ns[i + 1].spec_aabb())
                &&& ns[i].spec_aabb().contains(ns[ns[i + 1].exit_index as int - slot].spec_aabb())
            },
    decreases hi - lo,
{
    let ns = spec_build_nodes(prims, lo, hi, slot);
    lemma_build_nodes_len(prims, lo, hi, slot);
    lemma_flat_shape(prims, lo, hi, slot);
    if hi - lo > LEAF_MAX_PRIMITIVES as int {
        let mid = lo + (hi - lo) / 2;
        let nl = subtree_node_count(mid - lo);
        let nr = subtree_node_count(hi - mid);
        let left = spec_build_nodes(prims, lo, mid, slot + 1);
        let right = spec_build_nodes(prims, mid, hi, slot + 1 + nl);
        lemma_build_nodes_len(prims, lo, mid, slot + 1);
        lemma_count_bounds(mid - lo);
        lemma_count_bounds(hi - mid);
        lemma_flat_shape(prims, lo, mid, slot + 1);
        lemma_flat_shape(prims, mid, hi, slot + 1 + nl);
        lemma_flat_boxes(prims, lo, mid, slot + 1);
        lemma_flat_boxes(prims, mid, hi, slot + 1 + nl);
        lemma_box_of_range_prefix(prims, lo, mid, hi);
        lemma_box_of_range_suffix(prims, lo, mid, hi);
        assert(ns.len() == 1 + nl + nr);
        assert(forall|j: int| 0 <= j < nl ==> ns[1 + j] == left[j]);
        assert(forall|j: int| 0 <= j < nr ==> ns[1 + nl + j] == right[j]);
        assert forall|i: int|
            0 <= i < ns.len() && !(#[trigger] ns[i]).is_leaf() implies {
            &&& ns[i + 1].exit_index < ns[i].exit_index
            &&& ns[i].spec_aabb().contains(ns[i + 1].spec_aabb())
            &&& ns[i].spec_aabb().contains(ns[ns[i + 1].exit_index as int - slot].spec_aabb())
        } by {
            if i == 0 {
                assert(ns[1] == left[0]);
                assert(ns[1].exit_index as int - slot == 1 + nl);
                assert(ns[1 + nl] == right[0]);
            } else if i < 1 + nl {
                let j = i - 1;
                assert(ns[i] == left[j]);
                assert(ns[i + 1] == left[j + 1]);
                let r = left[j + 1].exit_index as int - (slot + 1);
                assert(0 <= r < nl);
                assert(ns[1 + r] == left[r]);
            } else {
                let j = i - 1 - nl;
                assert(ns[i] == right[j]);
                assert(ns[i + 1] == right[j + 1]);
                let r = right[j + 1].exit_index as int - (slot + 1 + nl);
                assert(0 <= r < nr);
                assert(ns[1 + nl + r] == right[r]);
            }
        }
    }
}

/// Every primitive of the range is owned by a leaf of the run whose box
/// covers the primitive's box and whose `face_index` is at or before the
/// primitive and owned by the same leaf.
proof fn lemma_flat_owner(prims: Seq<GpuPrimitive>, lo: int, hi: int, slot: int)
    requires
        0 <= lo < hi <= prims.len(),
        hi <= 0x4000_0000,
        0 <= slot,
        slot + subtree_node_count(hi - lo) <= 0x8000_0000,
    ensures
        forall|k: int|
            lo <= k < hi ==> {
                let ns = spec_build_nodes(prims, lo, hi, slot);
                let s = #[trigger] spec_node_slot(k, lo, hi, slot);
                &&& slot <= s < slot + subtree_node_count(hi - lo)
                &&& ns[s - slot].is_leaf()
                &&& ns[s - slot].face_index <= k
                &&& spec_node_slot(ns[s - slot].face_index as int, lo, hi, slot) == s
                &&& ns[s - slot].spec_aabb().contains(prims[k].spec_aabb())
            },
    decreases hi - lo,
{
    let ns = spec_build_nodes(prims, lo, hi, slot);
    lemma_build_nodes_len(prims, lo, hi, slot);
    if hi - lo <= LEAF_MAX_PRIMITIVES as int {
        assert forall|k: int| lo <= k < hi implies {
            let s = #[trigger] spec_node_slot(k, lo, hi, slot);
            &&& slot <= s < slot + subtree_node_count(hi - lo)
            &&& ns[s - slot].is_leaf()
            &&& ns[s - slot].face_index <= k
            &&& spec_node_slot(ns[s - slot].face_index as int, lo, hi, slot) == s
            &&& ns[s - slot].spec_aabb().contains(prims[k].spec_aabb())
        } by {
            lemma_box_of_range_contains_prim(prims, lo, hi, k);
        }
    } else {
        let mid = lo + (hi - lo) / 2;
        let nl = subtree_node_count(mid - lo);
        let nr = subtree_node_count(hi - mid);
        let left = spec_build_nodes(prims, lo, mid, slot + 1);
        let right = spec_build_nodes(prims, mid, hi, slot + 1 + nl);
        lemma_build_nodes_len(prims, lo, mid, slot + 1);
        lemma_count_bounds(mid - lo);
        lemma_count_bounds(hi - mid);
        lemma_flat_shape(prims, lo, mid, slot + 1);
        lemma_flat_shape(prims, mid, hi, slot + 1 + nl);
        lemma_flat_owner(prims, lo, mid, slot + 1);
        lemma_flat_owner(prims, mid, hi, slot + 1 + nl);
        assert(ns.len() == 1 + nl + nr);
        assert(forall|j: int| 0 <= j < nl ==> ns[1 + j] == left[j]);
        assert(forall|j: int| 0 <= j < nr ==> ns[1 + nl + j] == right[j]);
        assert forall|k: int| lo <= k < hi implies {
            let s = #[trigger] spec_node_slot(k, lo, hi, slot);
            &&& slot <= s < slot + subtree_node_count(hi - lo)
            &&& ns[s - slot].is_leaf()
            &&& ns[s - slot].face_index <= k
            &&& spec_node_slot(ns[s - slot].face_index as int, lo, hi, slot) == s
            &&& ns[s - slot].spec_aabb().contains(prims[k].spec_aabb())
        } by {
            if k < mid {
                let s = spec_node_slot(k, lo, mid, slot + 1);
                assert(spec_node_slot(k, lo, hi, slot) == s);
                assert(ns[s - slot] == left[s - (slot + 1)]);
                let f = left[s - (slot + 1)].face_index as int;
                assert(f < mid);
                assert(spec_node_slot(f, lo, hi, slot) == spec_node_slot(f, lo, mid, slot + 1));
            } else {
                let s = spec_node_slot(k, mid, hi, slot + 1 + nl);
                assert(spec_node_slot(k, lo, hi, slot) == s);
                assert(ns[s - slot] == right[s - (slot + 1 + nl)]);
                let f = right[s - (slot + 1 + nl)].face_index as int;
                assert(f >= mid);
                assert(spec_node_slot(f, lo, hi, slot) == spec_node_slot(f, mid, hi, slot + 1 + nl));
            }
        }
    }
}

/// Between a leaf's `face_index` and any primitive it owns, every primitive
/// is owned by that same leaf: leaf runs are contiguous.
proof fn lemma_flat_contiguous(prims: Seq<GpuPrimitive>, lo: int, hi: int, slot: int)
    requires
        0 <= lo < hi <= prims.len(),
        hi <= 0x4000_0000,
        0 <= slot,
        slot + subtree_node_count(hi - lo) <= 0x8000_0000,
    ensures
        forall|k: int, j: int|
            #![trigger spec_node_slot(k, lo, hi, slot), spec_node_slot(j, lo, hi, slot)]
            lo <= k < hi && spec_build_nodes(prims, lo, hi, slot)[spec_node_slot(k, lo, hi, slot)
                - slot].face_index <= j <= k ==> spec_node_slot(j, lo, hi, slot) == spec_node_slot(
                k,
                lo,
                hi,
                slot,
            ),
    decreases hi - lo,
{
    let ns = spec_build_nodes(prims, lo, hi, slot);
    lemma_build_nodes_len(prims, lo, hi, slot);
    if hi - lo > LEAF_MAX_PRIMITIVES as int {
        let mid = lo + (hi - lo) / 2;
        let nl = subtree_node_count(mid - lo);
        let left = spec_build_nodes(prims, lo, mid, slot + 1);
        let right = spec_build_nodes(prims, mid, hi, slot + 1 + nl);
        lemma_build_nodes_len(prims, lo, mid, slot + 1);
        lemma_count_bounds(mid - lo);
        lemma_count_bounds(hi - mid);
        lemma_flat_shape(prims, lo, mid, slot + 1);
        lemma_flat_shape(prims, mid, hi, slot + 1 + nl);
        lemma_flat_owner(prims, lo, mid, slot + 1);
        lemma_flat_owner(prims, mid, hi, slot + 1 + nl);
        lemma_flat_contiguous(prims, lo, mid, slot + 1);
        lemma_flat_contiguous(prims, mid, hi, slot + 1 + nl);
        assert(forall|j: int| 0 <= j < nl ==> ns[1 + j] == left[j]);
        assert(forall|j: int|
            0 <= j < subtree_node_count(hi - mid) ==> ns[1 + nl + j] == right[j]);
        assert forall|k: int, j: int|
            lo <= k < hi && ns[#[trigger] spec_node_slot(k, lo, hi, slot) - slot].face_index <= j
                <= k implies #[trigger] spec_node_slot(j, lo, hi, slot) == spec_node_slot(
            k,
            lo,
            hi,
            slot,
        ) by {
            if k < mid {
                let s = spec_node_slot(k, lo, mid, slot + 1);
                assert(spec_node_slot(k, lo, hi, slot) == s);
                assert(slot + 1 <= s < slot + 1 + nl);
                assert(ns[s - slot] == left[s - (slot + 1)]);
                assert(left[s - (slot + 1)].is_leaf());
                assert(lo <= (left[s - (slot + 1)].face_index as int) < mid);
                assert(lo <= j <= k < mid);
                assert(spec_node_slot(j, lo, mid, slot + 1) == s);
                assert(spec_node_slot(j, lo, hi, slot) == spec_node_slot(j, lo, mid, slot + 1));
            } else {
                let s = spec_node_slot(k, mid, hi, slot + 1 + nl);
                assert(spec_node_slot(k, lo, hi, slot) == s);
                assert(slot + 1 + nl <= s < slot + 1 + nl + subtree_node_count(hi - mid));
                assert(ns[s - slot] == right[s - (slot + 1 + nl)]);
                assert(right[s - (slot + 1 + nl)].is_leaf());
                assert(mid <= (right[s - (slot + 1 + nl)].face_index as int) < hi);
                assert(mid <= j <= k < hi);
                assert(spec_node_slot(j, mid, hi, slot + 1 + nl) == s);
                assert(spec_node_slot(j, lo, hi, slot) == spec_node_slot(
                    j,
                    mid,
                    hi,
                    slot + 1 + nl,
                ));
            }
        }
    }
}

/// The hierarchy layout is structurally sound; in particular every internal
/// node's box covers the boxes of both of its children, every leaf's box
/// covers the boxes of all primitives of its run, the run has exactly the
/// counted node total, and every primitive's owning slot names a leaf whose
/// contiguous `face_index` run includes that primitive.
pub proof fn lemma_bvh_structure(prims: Seq<GpuPrimitive>, lo: int, hi: int, slot: int)
    requires
        0 <= lo < hi <= prims.len(),
        hi <= 0x4000_0000,
        0 <= slot,
        slot + subtree_node_count(hi - lo) <= 0x8000_0000,
    ensures
        subtree_flat_wf(prims, lo, hi, slot, spec_build_nodes(prims, lo, hi, slot)),
{
    lemma_flat_shape(prims, lo, hi, slot);
    lemma_flat_boxes(prims, lo, hi, slot);
    lemma_flat_owner(prims, lo, hi, slot);
    lemma_flat_contiguous(prims, lo, hi, slot);
}

/// Computes the box of the primitive range `[lo, hi)`.
fn range_box(prims: &Vec<GpuPrimitive>, lo: usize, hi: usize) -> (r: Aabb)
    requires
        lo <= hi <= prims@.len(),
    ensures
        r == box_of_range(prims@, lo as int, hi as int),
{
    let mut b = Aabb::empty();
    let mut k = lo;
    while k < hi
        invariant
            lo <= k <= hi <= prims@.len(),
            b == box_of_range(prims@, lo as int, k as int),
        decreases hi - k,
    {
        b = b.union(prims[k].aabb());
        k = k + 1;
    }
    b
}

/// Builds the subtree over `prims[lo..hi)`, appending its depth-first node
/// run to `nodes` and pointing each primitive of the range at its leaf.
fn build_range(prims: &mut Vec<GpuPrimitive>, lo: usize, hi: usize, nodes: &mut Vec<GpuNode>)
    requires
        lo < hi <= old(prims)@.len(),
        old(nodes)@.len() + subtree_node_count((hi - lo) as int) <= 0x8000_0000,
    ensures
        final(prims)@.len() == old(prims)@.len(),
        forall|k: int|
            0 <= k < old(prims)@.len() && !(lo <= k < hi) ==> final(prims)@[k] == old(prims)@[k],
        forall|k: int|
            lo <= k < hi ==> final(prims)@[k] == old(prims)@[k].with_node_index(
                spec_node_slot(k, lo as int, hi as int, old(nodes)@.len() as int) as u32,
            ),
        final(nodes)@ == old(nodes)@ + spec_build_nodes(
            old(prims)@,
            lo as int,
            hi as int,
            old(nodes)@.len() as int,
        ),
    decreases hi - lo,
{
    let slot = nodes.len();
    proof {
        lemma_count_bounds((hi - lo) as int);
    }
    let b = range_box(prims, lo, hi);
    if hi - lo <= LEAF_MAX_PRIMITIVES {
        nodes.push(
            GpuNode {
                min: b.min,
                max: b.max,
                entry_index: LEAF_ENTRY_SENTINEL,
                exit_index: (slot + 1) as u32,
                face_index: lo as u32,
            },
        );
        let mut k = lo;
        while k < hi
            invariant
                lo <= k <= hi <= prims@.len(),
                prims@.len() == old(prims)@.len(),
                slot < 0x8000_0000,
                forall|j: int|
                    0 <= j < old(prims)@.len() && !(lo <= j < k) ==> prims@[j] == old(prims)@[j],
                forall|j: int|
                    lo <= j < k ==> prims@[j] == old(prims)@[j].with_node_index(slot as u32),
            decreases hi - k,
        {
            let p = prims[k];
            prims[k] = GpuPrimitive {
                vertices: p.vertices,
                indices: p.indices,
                node_index: slot as u32,
            };
            k = k + 1;
        }
    } else {
        let mid = lo + (hi - lo) / 2;
        nodes.push(
            GpuNode {
                min: b.min,
                max: b.max,
                entry_index: (slot + 1) as u32,
                exit_index: 0,
                face_index: 0,
            },
        );
        proof {
            lemma_count_bounds((mid - lo) as int);
            lemma_count_bounds((hi - mid) as int);
        }
        build_range(prims, lo, mid, nodes);
        let ghost prims1 = prims@;
        let ghost left = spec_build_nodes(old(prims)@, lo as int, mid as int, slot + 1);
        proof {
            lemma_build_nodes_len(old(prims)@, lo as int, mid as int, slot + 1);
        }
        build_range(prims, mid, hi, nodes);
        let ghost right1 = spec_build_nodes(prims1, mid as int, hi as int, slot + 1 + left.len());
        let ghost right = spec_build_nodes(
            old(prims)@,
            mid as int,
            hi as int,
            slot + 1 + left.len(),
        );
        proof {
            assert forall|k: int| mid <= k < hi implies (#[trigger] prims1[k]).vertices == old(
                prims,
            )@[k].vertices by {}
            lemma_build_nodes_congruent(
                prims1,
                old(prims)@,
                mid as int,
                hi as int,
                slot + 1 + left.len(),
            );
            lemma_build_nodes_len(old(prims)@, mid as int, hi as int, slot + 1 + left.len());
        }
        let exit = nodes.len();
        let root = nodes[slot];
        nodes[slot] = GpuNode {
            min: root.min,
            max: root.max,
            entry_index: root.entry_index,
            exit_index: exit as u32,
            face_index: root.face_index,
        };
        proof {
            assert(final(nodes)@ =~= old(nodes)@ + spec_build_nodes(
                old(prims)@,
                lo as int,
                hi as int,
                slot as int,
            ));
        }
    }
}

/// Builds the bounding-volume hierarchy over the mesh's primitives: returns
/// the flattened node array and overwrites each primitive's placeholder
/// `node_index` with the slot of the leaf owning it. A mesh with no
/// primitives gets an empty node array.
pub fn build_bvh(prims: &mut Vec<GpuPrimitive>) -> (nodes: Vec<GpuNode>)
    requires
        old(prims)@.len() <= 0x4000_0000,
    ensures
        final(prims)@.len() == old(prims)@.len(),
        nodes@.len() == subtree_node_count(old(prims)@.len() as int),
        old(prims)@.len() == 0 ==> final(prims)@ == old(prims)@,
        old(prims)@.len() > 0 ==> {
            &&& nodes@ == spec_build_nodes(old(prims)@, 0, old(prims)@.len() as int, 0)
            &&& forall|k: int|
                0 <= k < old(prims)@.len() ==> final(prims)@[k] == old(prims)@[k].with_node_index(
                    spec_node_slot(k, 0, old(prims)@.len() as int, 0) as u32,
                )
        },
{
    let mut nodes: Vec<GpuNode> = Vec::new();
    if prims.len() > 0 {
        proof {
            lemma_count_bounds(old(prims)@.len() as int);
            lemma_build_nodes_len(old(prims)@, 0, old(prims)@.len() as int, 0);
        }
        let n = prims.len();
        build_range(prims, 0, n, &mut nodes);
    }
    nodes
}

} // verus!
