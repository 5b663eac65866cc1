//! The buffer packer: concatenates every registry entry into the three
//! global buffers, in registry order, and records each mesh's offsets.
//!
//! Packing is a full rebuild over the whole registry on every dirty tick,
//! however small the change: a deliberate simplicity-over-throughput
//! tradeoff and a known scaling limit, not a defect.
use vstd::prelude::*;
use crate::registry::BindlessMeshes;
use crate::types::BindlessMesh;
use crate::types::GpuBindlessMesh;
use crate::types::GpuNode;
use crate::types::GpuNodeBuffer;
use crate::types::GpuPrimitive;
use crate::types::GpuPrimitiveBuffer;
use crate::types::GpuVertex;
use crate::types::GpuVertexBuffer;

verus! {

/// The three global buffers, rebuilt whole on every dirty tick and then
/// handed to the device.
pub struct BindlessMeshMeta {
    pub vertex_buffer: GpuVertexBuffer,
    pub primitive_buffer: GpuPrimitiveBuffer,
    pub node_buffer: GpuNodeBuffer,
}

/// Per-identity offsets into the global buffers, for consumers translating
/// mesh-local indices into global addresses; fully recomputed on every
/// repack, in registry order.
pub struct RenderBindlessMeshes {
    pub entries: Vec<(u64, GpuBindlessMesh)>,
}

impl Default for BindlessMeshMeta {
    /// Three empty buffers.
    fn default() -> (r: BindlessMeshMeta)
        ensures
            r.vertex_buffer.data@ == Seq::<GpuVertex>::empty(),
            r.primitive_buffer.data@ == Seq::<GpuPrimitive>::empty(),
            r.node_buffer.data@ == Seq::<GpuNode>::empty(),
    {
        let r = BindlessMeshMeta {
            vertex_buffer: GpuVertexBuffer { data: Vec::new() },
            primitive_buffer: GpuPrimitiveBuffer { data: Vec::new() },
            node_buffer: GpuNodeBuffer { data: Vec::new() },
        };
        proof {
            assert(r.vertex_buffer.data@ =~= Seq::<GpuVertex>::empty());
            assert(r.primitive_buffer.data@ =~= Seq::<GpuPrimitive>::empty());
            assert(r.node_buffer.data@ =~= Seq::<GpuNode>::empty());
        }
        r
    }
}

impl Default for RenderBindlessMeshes {
    /// An empty offset table.
    fn default() -> (r: RenderBindlessMeshes)
        ensures
            r.entries@ == Seq::<(u64, GpuBindlessMesh)>::empty(),
    {
        let r = RenderBindlessMeshes { entries: Vec::new() };
        proof {
            assert(r.entries@ =~= Seq::<(u64, GpuBindlessMesh)>::empty());
        }
        r
    }
}

/// Vertices of the first `i` registry entries.
pub open spec fn total_vertices(s: Seq<(u64, BindlessMesh)>, i: int) -> int
    decreases i,
{
    if i <= 0 {
        0
    } else {
        total_vertices(s, i - 1) + s[i - 1].1.vertices@.len()
    }
}

/// Primitives of the first `i` registry entries.
pub open spec fn total_primitives(s: Seq<(u64, BindlessMesh)>, i: int) -> int
    decreases i,
{
    if i <= 0 {
        0
    } else {
        total_primitives(s, i - 1) + s[i - 1].1.primitives@.len()
    }
}

/// Nodes of the first `i` registry entries.
pub open spec fn total_nodes(s: Seq<(u64, BindlessMesh)>, i: int) -> int
    decreases i,
{
    if i <= 0 {
        0
    } else {
        total_nodes(s, i - 1) + s[i - 1].1.nodes@.len()
    }
}

/// The vertex concatenation of the first `i` registry entries.
pub open spec fn concat_vertices(s: Seq<(u64, BindlessMesh)>, i: int) -> Seq<GpuVertex>
    decreases i,
{
    if i <= 0 {
        Seq::<GpuVertex>::empty()
    } else {
        concat_vertices(s, i - 1) + s[i - 1].1.vertices@
    }
}

/// The primitive concatenation of the first `i` registry entries.
pub open spec fn concat_primitives(s: Seq<(u64, BindlessMesh)>, i: int) -> Seq<GpuPrimitive>
    decreases i,
{
    if i <= 0 {
        Seq::<GpuPrimitive>::empty()
    } else {
        concat_primitives(s, i - 1) + s[i - 1].1.primitives@
    }
}

/// The node concatenation of the first `i` registry entries.
pub open spec fn concat_nodes(s: Seq<(u64, BindlessMesh)>, i: int) -> Seq<GpuNode>
    decreases i,
{
    if i <= 0 {
        Seq::<GpuNode>::empty()
    } else {
        concat_nodes(s, i - 1) + s[i - 1].1.nodes@
    }
}

/// The whole registry's concatenations stay addressable by `u32` offsets.
pub open spec fn registry_fits(s: Seq<(u64, BindlessMesh)>) -> bool {
    &&& total_vertices(s, s.len() as int) <= 0xFFFF_FFFF
    &&& total_primitives(s, s.len() as int) <= 0xFFFF_FFFF
    &&& total_nodes(s, s.len() as int) <= 0xFFFF_FFFF
}

/// Running totals never decrease along the registry: each subsequent mesh's
/// offsets sit at or past every earlier one's.
pub proof fn lemma_totals_monotonic(s: Seq<(u64, BindlessMesh)>, i: int, j: int)
    requires
        i <= j,
    ensures
        total_vertices(s, i) <= total_vertices(s, j),
        total_primitives(s, i) <= total_primitives(s, j),
        total_nodes(s, i) <= total_nodes(s, j),
    decreases j - i,
{
    if i < j {
        lemma_totals_monotonic(s, i, j - 1);
    }
}

/// `meta` and `render` hold exactly the pack of the registry entries `s`:
/// the three buffers are the concatenations, in registry order, of every
/// entry's arrays, and entry `i`'s offset record is the running total of all
/// prior entries' counts.
pub open spec fn buffers_packed(
    s: Seq<(u64, BindlessMesh)>,
    meta: BindlessMeshMeta,
    render: RenderBindlessMeshes,
) -> bool {
    &&& meta.vertex_buffer.data@ == concat_vertices(s, s.len() as int)
    &&& meta.primitive_buffer.data@ == concat_primitives(s, s.len() as int)
    &&& meta.node_buffer.data@ == concat_nodes(s, s.len() as int)
    &&& render.entries@.len() == s.len()
    &&& forall|i: int|
        0 <= i < s.len() ==> (#[trigger] render.entries@[i]) == (
        s[i].0,
        GpuBindlessMesh {
            vertex_offset: total_vertices(s, i) as u32,
            primitive_offset: total_primitives(s, i) as u32,
            node_offset: total_nodes(s, i) as u32,
        },
        )
}

/// Packing is a function of the registry alone: two packs of the same entry
/// sequence fill byte-identical buffers and identical offset records.
pub proof fn lemma_repack_idempotent(
    s: Seq<(u64, BindlessMesh)>,
    m1: BindlessMeshMeta,
    r1: RenderBindlessMeshes,
    m2: BindlessMeshMeta,
    r2: RenderBindlessMeshes,
)
    requires
        buffers_packed(s, m1, r1),
        buffers_packed(s, m2, r2),
    ensures
        m1.vertex_buffer.data@ == m2.vertex_buffer.data@,
        m1.primitive_buffer.data@ == m2.primitive_buffer.data@,
        m1.node_buffer.data@ == m2.node_buffer.data@,
        r1.entries@ == r2.entries@,
{
    assert(r1.entries@ =~= r2.entries@);
}

/// Offsets ascend with registry order: a later entry's offsets are the
/// running totals of everything before it, so they never decrease.
pub proof fn lemma_offsets_monotonic(
    s: Seq<(u64, BindlessMesh)>,
    render: RenderBindlessMeshes,
    meta: BindlessMeshMeta,
    i: int,
    j: int,
)
    requires
        buffers_packed(s, meta, render),
        registry_fits(s),
        0 <= i <= j < s.len(),
    ensures
        render.entries@[i].1.vertex_offset <= render.entries@[j].1.vertex_offset,
        render.entries@[i].1.primitive_offset <= render.entries@[j].1.primitive_offset,
        render.entries@[i].1.node_offset <= render.entries@[j].1.node_offset,
        render.entries@[j].1.vertex_offset as int == total_vertices(s, j),
        render.entries@[j].1.primitive_offset as int == total_primitives(s, j),
        render.entries@[j].1.node_offset as int == total_nodes(s, j),
        render.entries@[j].1.vertex_offset + s[j].1.vertices@.len() <= meta.vertex_buffer.data@.len(),
        render.entries@[j].1.primitive_offset + s[j].1.primitives@.len()
            <= meta.primitive_buffer.data@.len(),
        render.entries@[j].1.node_offset + s[j].1.nodes@.len() <= meta.node_buffer.data@.len(),
{
    lemma_totals_monotonic(s, 0, i);
    lemma_totals_monotonic(s, i, j);
    lemma_totals_monotonic(s, j + 1, s.len() as int);
    assert(total_vertices(s, j + 1) == total_vertices(s, j) + s[j].1.vertices@.len());
    lemma_concat_total_len(s, s.len() as int);
}

/// A concatenation's length is the matching running total.
pub proof fn lemma_concat_total_len(s: Seq<(u64, BindlessMesh)>, i: int)
    ensures
        concat_vertices(s, i).len() == total_vertices(s, i),
        concat_primitives(s, i).len() == total_primitives(s, i),
        concat_nodes(s, i).len() == total_nodes(s, i),
    decreases i,
{
    if i > 0 {
        lemma_concat_total_len(s, i - 1);
    }
}

/// Appends every element of `src` to `dst`.
fn append_all<T: Copy>(dst: &mut Vec<T>, src: &Vec<T>)
    ensures
        final(dst)@ == old(dst)@ + src@,
{
    let mut j: usize = 0;
    while j < src.len()
        invariant
            j <= src@.len(),
            dst@ == old(dst)@ + src@.subrange(0, j as int),
        decreases src@.len() - j,
    {
        dst.push(src[j]);
        proof {
            assert(old(dst)@ + src@.subrange(0, j as int) + seq![src@[j as int]] =~= old(dst)@
                + src@.subrange(0, j + 1));
        }
        j = j + 1;
    }
    proof {
        assert(src@.subrange(0, src@.len() as int) =~= src@);
    }
}

/// Decides whether the registry's concatenated buffers stay addressable by
/// `u32` offsets.
pub fn registry_fits_check(meshes: &BindlessMeshes) -> (b: bool)
    ensures
        b == registry_fits(meshes.entries_seq()),
{
    let s = Ghost(meshes.entries_seq());
    let n = meshes.len();
    let mut tv: u64 = 0;
    let mut tp: u64 = 0;
    let mut tn: u64 = 0;
    let mut i: usize = 0;
    while i < n
        invariant
            n == s@.len(),
            s@ == meshes.entries_seq(),
            i <= n,
            tv as int == total_vertices(s@, i as int),
            tp as int == total_primitives(s@, i as int),
            tn as int == total_nodes(s@, i as int),
            tv <= 0xFFFF_FFFF,
            tp <= 0xFFFF_FFFF,
            tn <= 0xFFFF_FFFF,
        decreases n - i,
    {
        let e = meshes.entry(i);
        let nv = e.1.vertices.len() as u64;
        let np = e.1.primitives.len() as u64;
        let nn = e.1.nodes.len() as u64;
        if nv > 0xFFFF_FFFF || tv + nv > 0xFFFF_FFFF || np > 0xFFFF_FFFF || tp + np > 0xFFFF_FFFF
            || nn > 0xFFFF_FFFF || tn + nn > 0xFFFF_FFFF {
            proof {
                lemma_totals_monotonic(s@, i + 1, s@.len() as int);
            }
            return false;
        }
        tv = tv + nv;
        tp = tp + np;
        tn = tn + nn;
        i = i + 1;
    }
    true
}

/// Clears the three global buffers and the offset table, then appends every
/// registry entry's arrays in registry order, recording the buffer lengths
/// seen just before each entry as that mesh's offsets.
pub fn pack_buffers(
    meshes: &BindlessMeshes,
    meta: &mut BindlessMeshMeta,
    render: &mut RenderBindlessMeshes,
)
    requires
        registry_fits(meshes.entries_seq()),
    ensures
        buffers_packed(meshes.entries_seq(), *final(meta), *final(render)),
{
    let s = Ghost(meshes.entries_seq());
    meta.vertex_buffer.data.clear();
    meta.primitive_buffer.data.clear();
    meta.node_buffer.data.clear();
    render.entries.clear();
    let n = meshes.len();
    let mut i: usize = 0;
    while i < n
        invariant
            n == s@.len(),
            s@ == meshes.entries_seq(),
            registry_fits(s@),
            i <= n,
            meta.vertex_buffer.data@ == concat_vertices(s@, i as int),
            meta.primitive_buffer.data@ == concat_primitives(s@, i as int),
            meta.node_buffer.data@ == concat_nodes(s@, i as int),
            render.entries@.len() == i,
            forall|j: int|
                0 <= j < i ==> (#[trigger] render.entries@[j]) == (
                s@[j].0,
                GpuBindlessMesh {
                    vertex_offset: total_vertices(s@, j) as u32,
                    primitive_offset: total_primitives(s@, j) as u32,
                    node_offset: total_nodes(s@, j) as u32,
                },
                ),
        decreases n - i,
    {
        proof {
            lemma_concat_total_len(s@, i as int);
            lemma_totals_monotonic(s@, i as int, s@.len() as int);
        }
        let e = meshes.entry(i);
        let vertex_offset = meta.vertex_buffer.data.len() as u32;
        append_all(&mut meta.vertex_buffer.data, &e.1.vertices);
        let primitive_offset = meta.primitive_buffer.data.len() as u32;
        append_all(&mut meta.primitive_buffer.data, &e.1.primitives);
        let node_offset = meta.node_buffer.data.len() as u32;
        append_all(&mut meta.node_buffer.data, &e.1.nodes);
        render.entries.push((e.0, GpuBindlessMesh { vertex_offset, primitive_offset, node_offset }));
        i = i + 1;
    }
}

} // verus!
