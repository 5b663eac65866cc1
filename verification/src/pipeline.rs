//! The per-tick pipeline: compile the changed meshes, update the registry,
//! and repack the global buffers when anything changed.
//!
//! A tick runs in two ordered phases. The extract phase only reads upstream
//! state: the caller reduces the tick's events, fetches a readable
//! description for each changed identity, and has the batch compiled here.
//! The prepare phase then mutates the registry, repacks and reports whether
//! the buffers must be pushed to the device; the caller uploads only then.
use vstd::prelude::*;
use crate::extract::extract_mesh;
use crate::extract::mesh_compiled_from;
use crate::pack::buffers_packed;
use crate::pack::pack_buffers;
use crate::pack::registry_fits;
use crate::pack::registry_fits_check;
use crate::pack::BindlessMeshMeta;
use crate::pack::RenderBindlessMeshes;
use crate::registry::spec_registry_insert;
use crate::registry::spec_registry_remove;
use crate::registry::BindlessMeshes;
use crate::types::BindlessMesh;
use crate::types::BindlessMeshError;
use crate::types::MeshData;

verus! {

/// One tick's compiled change batch: freshly compiled meshes to register and
/// identities to evict.
pub struct ExtractedBindlessMeshes {
    pub extracted: Vec<(u64, BindlessMesh)>,
    pub removed: Vec<u64>,
}

impl Default for ExtractedBindlessMeshes {
    /// An empty batch: nothing to register, nothing to evict.
    fn default() -> (r: ExtractedBindlessMeshes)
        ensures
            r.extracted@ == Seq::<(u64, BindlessMesh)>::empty(),
            r.removed@ == Seq::<u64>::empty(),
    {
        let r = ExtractedBindlessMeshes { extracted: Vec::new(), removed: Vec::new() };
        proof {
            assert(r.extracted@ =~= Seq::<(u64, BindlessMesh)>::empty());
            assert(r.removed@ =~= Seq::<u64>::empty());
        }
        r
    }
}

/// The sources of a batch that extraction accepts, in batch order.
pub open spec fn spec_ok_sources(s: Seq<(u64, MeshData)>) -> Seq<(u64, MeshData)>
    decreases s.len(),
{
    if s.len() == 0 {
        Seq::<(u64, MeshData)>::empty()
    } else {
        let rest = spec_ok_sources(s.drop_last());
        if s.last().1.extract_ok() {
            rest.push(s.last())
        } else {
            rest
        }
    }
}

/// The identities of a batch that extraction rejects, each with its error,
/// in batch order.
pub open spec fn spec_failed_sources(s: Seq<(u64, MeshData)>) -> Seq<(u64, BindlessMeshError)>
    decreases s.len(),
{
    if s.len() == 0 {
        Seq::<(u64, BindlessMeshError)>::empty()
    } else {
        let rest = spec_failed_sources(s.drop_last());
        if s.last().1.extract_ok() {
            rest
        } else {
            rest.push((s.last().0, s.last().1.spec_error()))
        }
    }
}

/// Compiles one tick's changed meshes into a change batch.
///
/// Each source that extraction accepts contributes its compiled mesh under
/// its identity; each source it rejects is skipped and reported with its
/// error, and the rest of the batch goes on. The eviction list passes
/// through unchanged.
pub fn extract_bindless_meshes(sources: &Vec<(u64, MeshData)>, removed: Vec<u64>) -> (r: (
    ExtractedBindlessMeshes,
    Vec<(u64, BindlessMeshError)>,
))
    requires
        forall|i: int| 0 <= i < sources@.len() ==> (#[trigger] sources@[i]).1.in_bounds(),
    ensures
        r.0.extracted@.len() == spec_ok_sources(sources@).len(),
        forall|i: int|
            0 <= i < r.0.extracted@.len() ==> (#[trigger] r.0.extracted@[i]).0 == spec_ok_sources(
                sources@,
            )[i].0 && mesh_compiled_from(r.0.extracted@[i].1, spec_ok_sources(sources@)[i].1),
        r.1@ == spec_failed_sources(sources@),
        r.0.removed@ == removed@,
{
    let mut extracted: Vec<(u64, BindlessMesh)> = Vec::new();
    let mut failures: Vec<(u64, BindlessMeshError)> = Vec::new();
    for i in 0..sources.len()
        invariant
            forall|j: int| 0 <= j < sources@.len() ==> (#[trigger] sources@[j]).1.in_bounds(),
            extracted@.len() == spec_ok_sources(sources@.subrange(0, i as int)).len(),
            forall|j: int|
                0 <= j < extracted@.len() ==> (#[trigger] extracted@[j]).0 == spec_ok_sources(
                    sources@.subrange(0, i as int),
                )[j].0 && mesh_compiled_from(
                    extracted@[j].1,
                    spec_ok_sources(sources@.subrange(0, i as int))[j].1,
                ),
            failures@ == spec_failed_sources(sources@.subrange(0, i as int)),
    {
        proof {
            let pre = sources@.subrange(0, i as int);
            let post = sources@.subrange(0, i + 1);
            assert(post.drop_last() =~= pre);
            assert(post.last() == sources@[i as int]);
        }
        let e = &sources[i];
        match extract_mesh(&e.1) {
            Ok(m) => {
                extracted.push((e.0, m));
            },
            Err(err) => {
                failures.push((e.0, err));
            },
        }
    }
    proof {
        assert(sources@.subrange(0, sources@.len() as int) =~= sources@);
    }
    (ExtractedBindlessMeshes { extracted, removed }, failures)
}

/// The registry after a change batch: every compiled mesh registered in
/// batch order, then every listed identity evicted.
pub open spec fn apply_inserts(
    s: Seq<(u64, BindlessMesh)>,
    ins: Seq<(u64, BindlessMesh)>,
) -> Seq<(u64, BindlessMesh)>
    decreases ins.len(),
{
    if ins.len() == 0 {
        s
    } else {
        spec_registry_insert(apply_inserts(s, ins.drop_last()), ins.last().0, ins.last().1)
    }
}

/// The registry after the batch's evictions, applied in batch order.
pub open spec fn apply_removes(s: Seq<(u64, BindlessMesh)>, rem: Seq<u64>) -> Seq<
    (u64, BindlessMesh),
>
    decreases rem.len(),
{
    if rem.len() == 0 {
        s
    } else {
        spec_registry_remove(apply_removes(s, rem.drop_last()), rem.last())
    }
}

/// What one tick's change batch does to the registry: insertions first, then
/// evictions.
pub open spec fn apply_changes(
    s: Seq<(u64, BindlessMesh)>,
    ins: Seq<(u64, BindlessMesh)>,
    rem: Seq<u64>,
) -> Seq<(u64, BindlessMesh)> {
    apply_removes(apply_inserts(s, ins), rem)
}

/// Runs one tick's prepare phase: registers every compiled mesh of the
/// batch (replacing older entries wholesale), evicts the removed
/// identities, and, when the batch changed anything at all, rebuilds the
/// three global buffers and the offset table from the whole registry.
///
/// Returns whether the buffers were rebuilt and must be pushed to the
/// device; an empty batch leaves buffers and offsets untouched and skips
/// the upload. A registry whose totals no longer fit `u32` addressing is
/// also left unpacked, so the buffers keep their previous consistent state.
pub fn prepare_bindless_meshes(
    extracted: ExtractedBindlessMeshes,
    meshes: &mut BindlessMeshes,
    meta: &mut BindlessMeshMeta,
    render: &mut RenderBindlessMeshes,
) -> (packed: bool)
    requires
        old(meshes).wf(),
    ensures
        final(meshes).wf(),
        final(meshes).entries_seq() == apply_changes(
            old(meshes).entries_seq(),
            extracted.extracted@,
            extracted.removed@,
        ),
        packed <==> ((extracted.extracted@.len() > 0 || extracted.removed@.len() > 0)
            && registry_fits(final(meshes).entries_seq())),
        packed ==> buffers_packed(final(meshes).entries_seq(), *final(meta), *final(render)),
        !packed ==> *final(meta) == *old(meta) && *final(render) == *old(render),
{
    let ghost s0 = meshes.entries_seq();
    let ghost ins = extracted.extracted@;
    let ghost rem = extracted.removed@;
    let dirty = extracted.extracted.len() > 0 || extracted.removed.len() > 0;
    let mut pending = extracted;
    while pending.extracted.len() > 0
        invariant
            meshes.wf(),
            pending.removed@ == rem,
            pending.extracted@.len() <= ins.len(),
            pending.extracted@ == ins.subrange(
                ins.len() - pending.extracted@.len(),
                ins.len() as int,
            ),
            meshes.entries_seq() == apply_inserts(
                s0,
                ins.subrange(0, ins.len() - pending.extracted@.len()),
            ),
        decreases pending.extracted@.len(),
    {
        let ghost k = ins.len() - pending.extracted@.len();
        let e = pending.extracted.remove(0);
        proof {
            assert(e == ins[k]);
            assert(pending.extracted@ =~= ins.subrange(k + 1, ins.len() as int));
            assert(ins.subrange(0, k + 1).drop_last() =~= ins.subrange(0, k));
            assert(ins.subrange(0, k + 1).last() == ins[k]);
        }
        meshes.insert(e.0, e.1);
    }
    proof {
        assert(ins.subrange(0, ins.len() as int) =~= ins);
    }
    let ghost s1 = meshes.entries_seq();
    let mut j: usize = 0;
    while j < pending.removed.len()
        invariant
            meshes.wf(),
            j <= pending.removed@.len(),
            pending.removed@ == rem,
            meshes.entries_seq() == apply_removes(s1, rem.subrange(0, j as int)),
        decreases pending.removed@.len() - j,
    {
        proof {
            assert(rem.subrange(0, j + 1).drop_last() =~= rem.subrange(0, j as int));
            assert(rem.subrange(0, j + 1).last() == rem[j as int]);
        }
        let id = pending.removed[j];
        meshes.remove(id);
        j = j + 1;
    }
    proof {
        assert(rem.subrange(0, rem.len() as int) =~= rem);
    }
    if dirty {
        if registry_fits_check(meshes) {
            pack_buffers(meshes, meta, render);
            return true;
        }
    }
    false
}

} // verus!
