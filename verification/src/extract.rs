//! Geometry extraction: normalizing a source mesh description into the
//! interleaved vertex array and the pre-hierarchy triangle list.
use vstd::prelude::*;
use crate::bvh::lemma_bvh_structure;
use crate::bvh::lemma_count_bounds;
use crate::bvh::subtree_flat_wf;
use crate::bvh::spec_build_nodes;
use crate::bvh::spec_node_slot;
use crate::bvh::subtree_node_count;
use crate::bvh::build_bvh;
use crate::geometry::Vec2Data;
use crate::geometry::Vec3Data;
use crate::types::BindlessMesh;
use crate::types::BindlessMeshError;
use crate::types::GpuNode;
use crate::types::GpuPrimitive;
use crate::types::GpuVertex;
use crate::types::MeshData;
use crate::types::MeshTopology;

verus! {

/// The least of three numbers.
pub open spec fn min3(a: int, b: int, c: int) -> int {
    if a <= b && a <= c {
        a
    } else if b <= c {
        b
    } else {
        c
    }
}

impl MeshData {
    /// All three required attributes arrived, each with its element type.
    pub open spec fn attrs_present(self) -> bool {
        self.positions is Some && self.normals is Some && self.uvs is Some
    }

    /// How many interleaved vertices extraction yields: the attribute arrays
    /// are consumed in lockstep up to the shortest.
    pub open spec fn spec_vertex_count(self) -> int
        recommends
            self.attrs_present(),
    {
        min3(
            self.positions->Some_0@.len() as int,
            self.normals->Some_0@.len() as int,
            self.uvs->Some_0@.len() as int,
        )
    }

    /// The interleaved vertex array extraction yields.
    pub open spec fn spec_vertices(self) -> Seq<GpuVertex>
        recommends
            self.attrs_present(),
    {
        Seq::new(
            self.spec_vertex_count() as nat,
            |i: int|
                GpuVertex {
                    position: self.positions->Some_0@[i],
                    normal: self.normals->Some_0@[i],
                    uv: self.uvs->Some_0@[i],
                },
        )
    }

    /// The index list triangulation reads: the explicit one when supplied,
    /// else the identity sequence over the vertex range.
    pub open spec fn spec_indices(self) -> Seq<u32>
        recommends
            self.attrs_present(),
    {
        match self.indices {
            Option::Some(v) => v@,
            Option::None => Seq::new(self.spec_vertex_count() as nat, |i: int| i as u32),
        }
    }

    /// Machine limits on a processable mesh: counts fit the `u32` slot and
    /// offset fields, and every index lands inside the vertex array. The
    /// limits only matter once all attributes are present, since extraction
    /// otherwise rejects the mesh before touching an index.
    pub open spec fn in_bounds(self) -> bool {
        self.attrs_present() ==> {
            &&& self.spec_vertex_count() <= 0x4000_0000
            &&& self.spec_indices().len() <= 0x4000_0000
            &&& forall|i: int|
                0 <= i < self.spec_indices().len() ==> (#[trigger] self.spec_indices()[i])
                    < self.spec_vertex_count()
        }
    }

    /// The topology admits this index list.
    pub open spec fn topology_ok(self) -> bool
        recommends
            self.attrs_present(),
    {
        ||| (self.topology == MeshTopology::TriangleList && self.spec_indices().len() % 3 == 0)
        ||| self.topology == MeshTopology::TriangleStrip
    }

    /// Extraction succeeds exactly on these meshes.
    pub open spec fn extract_ok(self) -> bool {
        self.attrs_present() && self.topology_ok()
    }

    /// The error extraction reports, attributes before topology, positions
    /// before normals before texture coordinates.
    pub open spec fn spec_error(self) -> BindlessMeshError
        recommends
            !self.extract_ok(),
    {
        if self.positions is None {
            BindlessMeshError::MissingPositionAttribute
        } else if self.normals is None {
            BindlessMeshError::MissingNormalAttribute
        } else if self.uvs is None {
            BindlessMeshError::MissingUVAttribute
        } else {
            BindlessMeshError::IncompatiblePrimitiveTopology
        }
    }
}

impl MeshData {
    /// How many triangles this mesh yields.
    pub open spec fn spec_primitive_count(self) -> int
        recommends
            self.extract_ok(),
    {
        if self.topology == MeshTopology::TriangleList {
            self.spec_indices().len() as int / 3
        } else {
            strip_count(self.spec_indices().len() as int)
        }
    }

    /// Triangle `k` of this mesh, before the hierarchy builder fills in the
    /// node back-reference.
    pub open spec fn spec_primitive(self, k: int) -> GpuPrimitive
        recommends
            self.extract_ok(),
            0 <= k < self.spec_primitive_count(),
    {
        if self.topology == MeshTopology::TriangleList {
            list_primitive(self.spec_vertices(), self.spec_indices(), k)
        } else {
            strip_primitive(self.spec_vertices(), self.spec_indices(), k)
        }
    }

    /// The whole triangle sequence, before hierarchy construction.
    pub open spec fn spec_raw_primitives(self) -> Seq<GpuPrimitive>
        recommends
            self.extract_ok(),
    {
        Seq::new(self.spec_primitive_count() as nat, |k: int| self.spec_primitive(k))
    }
}

/// `m` is exactly the compiled form of the source mesh `mesh`: the
/// interleaved vertices, the triangles in triangulation order each pointing
/// back at its leaf, and the flattened hierarchy node run. The layout is a
/// function of the source description alone, so re-extracting an unchanged
/// mesh reproduces the same compiled arrays.
pub open spec fn mesh_compiled_from(m: BindlessMesh, mesh: MeshData) -> bool {
    &&& m.vertices@ == mesh.spec_vertices()
    &&& m.primitives@.len() == mesh.spec_primitive_count()
    &&& forall|k: int|
        0 <= k < m.primitives@.len() ==> (#[trigger] m.primitives@[k]) == mesh.spec_primitive(
            k,
        ).with_node_index(spec_node_slot(k, 0, mesh.spec_primitive_count(), 0) as u32)
    &&& m.nodes@ == if mesh.spec_primitive_count() == 0 {
        Seq::<GpuNode>::empty()
    } else {
        spec_build_nodes(mesh.spec_raw_primitives(), 0, mesh.spec_primitive_count(), 0)
    }
    &&& m.nodes@.len() == subtree_node_count(mesh.spec_primitive_count())
}

/// Decides `MeshData::in_bounds`: whether the mesh stays within the machine
/// limits extraction relies on, with every index inside the vertex range.
/// Callers outside verified code test this before handing a mesh over.
pub fn mesh_data_in_bounds(mesh: &MeshData) -> (b: bool)
    ensures
        b == mesh.in_bounds(),
{
    let positions = match &mesh.positions {
        Some(p) => p,
        None => {
            return true;
        },
    };
    let normals = match &mesh.normals {
        Some(n) => n,
        None => {
            return true;
        },
    };
    let uvs = match &mesh.uvs {
        Some(u) => u,
        None => {
            return true;
        },
    };
    let mut vc: usize = positions.len();
    if normals.len() < vc {
        vc = normals.len();
    }
    if uvs.len() < vc {
        vc = uvs.len();
    }
    if vc > 0x4000_0000 {
        return false;
    }
    match &mesh.indices {
        None => true,
        Some(v) => {
            if v.len() > 0x4000_0000 {
                return false;
            }
            let mut i: usize = 0;
            while i < v.len()
                invariant
                    i <= v@.len(),
                    vc == mesh.spec_vertex_count(),
                    mesh.attrs_present(),
                    mesh.indices == Option::Some(*v),
                    forall|j: int| 0 <= j < i ==> (#[trigger] v@[j]) < vc,
                decreases v@.len() - i,
            {
                if v[i] as usize >= vc {
                    proof {
                        assert(mesh.spec_indices()[i as int] >= mesh.spec_vertex_count());
                    }
                    return false;
                }
                i = i + 1;
            }
            true
        },
    }
}

/// Extraction is deterministic: two compiled meshes of the same source
/// description hold identical vertex, primitive and node arrays. So
/// re-extracting an unchanged mesh reproduces the original compiled mesh.
pub proof fn lemma_extract_deterministic(m1: BindlessMesh, m2: BindlessMesh, mesh: MeshData)
    requires
        mesh_compiled_from(m1, mesh),
        mesh_compiled_from(m2, mesh),
    ensures
        m1.vertices@ == m2.vertices@,
        m1.primitives@ == m2.primitives@,
        m1.nodes@ == m2.nodes@,
{
    assert(m1.primitives@ =~= m2.primitives@);
}

/// A compiled mesh's hierarchy is structurally sound, and each primitive's
/// `node_index` is exactly the slot of the leaf owning it. Together with
/// `subtree_flat_wf` this says: every internal node's box covers both
/// children's boxes, every leaf's box covers the boxes of all primitives of
/// its contiguous `face_index` run, the node total is the counted one, and
/// every primitive's back-reference lands on a leaf whose run includes it.
pub proof fn lemma_compiled_mesh_wf(m: BindlessMesh, mesh: MeshData)
    requires
        mesh_compiled_from(m, mesh),
        mesh.extract_ok(),
        mesh.in_bounds(),
        m.primitives@.len() > 0,
    ensures
        subtree_flat_wf(
            mesh.spec_raw_primitives(),
            0,
            m.primitives@.len() as int,
            0,
            m.nodes@,
        ),
        forall|k: int|
            0 <= k < m.primitives@.len() ==> ((#[trigger] m.primitives@[k]).node_index as int)
                == spec_node_slot(k, 0, m.primitives@.len() as int, 0),
{
    let cnt = mesh.spec_primitive_count();
    let raw = mesh.spec_raw_primitives();
    assert(cnt <= mesh.spec_indices().len());
    lemma_count_bounds(cnt);
    lemma_bvh_structure(raw, 0, cnt, 0);
    assert forall|k: int|
        0 <= k < m.primitives@.len() implies ((#[trigger] m.primitives@[k]).node_index as int)
        == spec_node_slot(k, 0, m.primitives@.len() as int, 0) by {
        assert(0 <= spec_node_slot(k, 0, cnt, 0) < subtree_node_count(cnt));
    }
}

/// The triangle over corners `a`, `b`, `c` of the vertex array, carrying the
/// corner positions, the corner indices, and the placeholder node slot.
pub open spec fn spec_triangle(verts: Seq<GpuVertex>, a: u32, b: u32, c: u32) -> GpuPrimitive {
    GpuPrimitive {
        vertices: [verts[a as int].position, verts[b as int].position, verts[c as int].position],
        indices: [a, b, c],
        node_index: 0,
    }
}

/// Triangle `k` of a triangle-list mesh: indices are consumed in
/// consecutive, non-overlapping groups of three.
pub open spec fn list_primitive(verts: Seq<GpuVertex>, idx: Seq<u32>, k: int) -> GpuPrimitive {
    spec_triangle(verts, idx[3 * k], idx[3 * k + 1], idx[3 * k + 2])
}

/// How many triangles a strip of `n` indices yields.
pub open spec fn strip_count(n: int) -> int {
    if n >= 2 {
        n - 2
    } else {
        0
    }
}

/// Triangle `k` of a triangle-strip mesh: overlapping windows of three,
/// the first two corners swapped on odd windows to keep the front face
/// orientation consistent.
pub open spec fn strip_primitive(verts: Seq<GpuVertex>, idx: Seq<u32>, k: int) -> GpuPrimitive {
    if k % 2 == 0 {
        spec_triangle(verts, idx[k], idx[k + 1], idx[k + 2])
    } else {
        spec_triangle(verts, idx[k + 1], idx[k], idx[k + 2])
    }
}

/// Interleaves the three attribute arrays into vertices, consuming them in
/// lockstep up to the shortest.
pub fn extract_vertices(
    positions: &Vec<Vec3Data>,
    normals: &Vec<Vec3Data>,
    uvs: &Vec<Vec2Data>,
) -> (r: Vec<GpuVertex>)
    ensures
        r@.len() == min3(positions@.len() as int, normals@.len() as int, uvs@.len() as int),
        forall|i: int|
            0 <= i < r@.len() ==> r@[i] == (GpuVertex {
                position: positions@[i],
                normal: normals@[i],
                uv: uvs@[i],
            }),
{
    let mut n: usize = positions.len();
    if normals.len() < n {
        n = normals.len();
    }
    if uvs.len() < n {
        n = uvs.len();
    }
    let mut out: Vec<GpuVertex> = Vec::new();
    for i in 0..n
        invariant
            n == min3(positions@.len() as int, normals@.len() as int, uvs@.len() as int),
            out@.len() == i,
            forall|j: int|
                0 <= j < i ==> out@[j] == (GpuVertex {
                    position: positions@[j],
                    normal: normals@[j],
                    uv: uvs@[j],
                }),
    {
        out.push(GpuVertex { position: positions[i], normal: normals[i], uv: uvs[i] });
    }
    out
}

/// Builds the identity index sequence `0 .. count`.
pub fn identity_indices(count: usize) -> (r: Vec<u32>)
    requires
        count <= 0x4000_0000,
    ensures
        r@ == Seq::new(count as nat, |i: int| i as u32),
{
    let mut out: Vec<u32> = Vec::new();
    for i in 0..count
        invariant
            count <= 0x4000_0000,
            out@.len() == i,
            forall|j: int| 0 <= j < i ==> out@[j] == j as u32,
    {
        out.push(i as u32);
    }
    proof {
        assert(out@ =~= Seq::new(count as nat, |i: int| i as u32));
    }
    out
}

/// Reads one triangle's three corners out of the vertex array.
fn make_triangle(vertices: &Vec<GpuVertex>, a: u32, b: u32, c: u32) -> (p: GpuPrimitive)
    requires
        a < vertices@.len(),
        b < vertices@.len(),
        c < vertices@.len(),
    ensures
        p == spec_triangle(vertices@, a, b, c),
{
    GpuPrimitive {
        vertices: [
            vertices[a as usize].position,
            vertices[b as usize].position,
            vertices[c as usize].position,
        ],
        indices: [a, b, c],
        node_index: 0,
    }
}

/// Triangulates an index list over the extracted vertices.
///
/// A triangle list consumes indices in non-overlapping groups of three and
/// rejects a trailing partial group; a triangle strip reads overlapping
/// windows of three with the winding alternating by parity; any other
/// topology is rejected.
pub fn extract_primitives(
    vertices: &Vec<GpuVertex>,
    indices: &Vec<u32>,
    topology: MeshTopology,
) -> (r: Result<Vec<GpuPrimitive>, BindlessMeshError>)
    requires
        indices@.len() <= 0x4000_0000,
        forall|i: int| 0 <= i < indices@.len() ==> (#[trigger] indices@[i]) < vertices@.len(),
    ensures
        r is Ok <==> ((topology == MeshTopology::TriangleList && indices@.len() % 3 == 0)
            || topology == MeshTopology::TriangleStrip),
        r is Err ==> r->Err_0 == BindlessMeshError::IncompatiblePrimitiveTopology,
        (r is Ok && topology == MeshTopology::TriangleList) ==> {
            &&& r->Ok_0@.len() == indices@.len() as int / 3
            &&& forall|k: int|
                0 <= k < r->Ok_0@.len() ==> (#[trigger] r->Ok_0@[k]) == list_primitive(
                    vertices@,
                    indices@,
                    k,
                )
        },
        topology == MeshTopology::TriangleStrip ==> {
            &&& r->Ok_0@.len() == strip_count(indices@.len() as int)
            &&& forall|k: int|
                0 <= k < r->Ok_0@.len() ==> (#[trigger] r->Ok_0@[k]) == strip_primitive(
                    vertices@,
                    indices@,
                    k,
                )
        },
{
    match topology {
        MeshTopology::TriangleList => {
            if indices.len() % 3 != 0 {
                return Err(BindlessMeshError::IncompatiblePrimitiveTopology);
            }
            let m = indices.len() / 3;
            let mut out: Vec<GpuPrimitive> = Vec::new();
            for k in 0..m
                invariant
                    indices@.len() % 3 == 0,
                    m == indices@.len() as int / 3,
                    indices@.len() <= 0x4000_0000,
                    forall|i: int|
                        0 <= i < indices@.len() ==> (#[trigger] indices@[i]) < vertices@.len(),
                    out@.len() == k,
                    forall|j: int|
                        0 <= j < k ==> (#[trigger] out@[j]) == list_primitive(
                            vertices@,
                            indices@,
                            j,
                        ),
            {
                let base = 3 * k;
                let p = make_triangle(vertices, indices[base], indices[base + 1], indices[base + 2]);
                out.push(p);
            }
            Ok(out)
        },
        MeshTopology::TriangleStrip => {
            let mut out: Vec<GpuPrimitive> = Vec::new();
            if indices.len() < 3 {
                return Ok(out);
            }
            let m = indices.len() - 2;
            for k in 0..m
                invariant
                    3 <= indices@.len() <= 0x4000_0000,
                    m == indices@.len() - 2,
                    forall|i: int|
                        0 <= i < indices@.len() ==> (#[trigger] indices@[i]) < vertices@.len(),
                    out@.len() == k,
                    forall|j: int|
                        0 <= j < k ==> (#[trigger] out@[j]) == strip_primitive(
                            vertices@,
                            indices@,
                            j,
                        ),
            {
                let p = if k % 2 == 0 {
                    make_triangle(vertices, indices[k], indices[k + 1], indices[k + 2])
                } else {
                    make_triangle(vertices, indices[k + 1], indices[k], indices[k + 2])
                };
                out.push(p);
            }
            Ok(out)
        },
        _ => Err(BindlessMeshError::IncompatiblePrimitiveTopology),
    }
}

/// Copies an index list out of the source description.
fn copy_indices(v: &Vec<u32>) -> (r: Vec<u32>)
    ensures
        r@ == v@,
{
    let mut out: Vec<u32> = Vec::new();
    for i in 0..v.len()
        invariant
            out@.len() == i,
            forall|j: int| 0 <= j < i ==> out@[j] == v@[j],
    {
        out.push(v[i]);
    }
    proof {
        assert(out@ =~= v@);
    }
    out
}

/// Normalizes one source mesh into a compiled mesh, or rejects it.
///
/// Interleaves the three required attributes into vertices (rejecting the
/// mesh when one is absent), triangulates the index list per topology
/// (rejecting unsupported topologies and a partial trailing triangle-list
/// group), then builds and flattens the bounding-volume hierarchy over the
/// triangles. A rejected mesh contributes nothing; an accepted one yields
/// complete, internally consistent arrays pinned down by
/// `mesh_compiled_from`.
pub fn extract_mesh(mesh: &MeshData) -> (r: Result<BindlessMesh, BindlessMeshError>)
    requires
        mesh.in_bounds(),
    ensures
        r is Ok <==> mesh.extract_ok(),
        r is Err ==> r->Err_0 == mesh.spec_error(),
        r is Ok ==> mesh_compiled_from(r->Ok_0, *mesh),
{
    let positions = match &mesh.positions {
        Some(p) => p,
        None => {
            return Err(BindlessMeshError::MissingPositionAttribute);
        },
    };
    let normals = match &mesh.normals {
        Some(n) => n,
        None => {
            return Err(BindlessMeshError::MissingNormalAttribute);
        },
    };
    let uvs = match &mesh.uvs {
        Some(u) => u,
        None => {
            return Err(BindlessMeshError::MissingUVAttribute);
        },
    };
    let vertices = extract_vertices(positions, normals, uvs);
    proof {
        assert(vertices@ =~= mesh.spec_vertices());
    }
    let indices: Vec<u32> = match &mesh.indices {
        Some(v) => copy_indices(v),
        None => identity_indices(vertices.len()),
    };
    let mut prims = match extract_primitives(&vertices, &indices, mesh.topology) {
        Ok(p) => p,
        Err(e) => {
            return Err(e);
        },
    };
    proof {
        assert(prims@ =~= mesh.spec_raw_primitives());
    }
    let nodes = build_bvh(&mut prims);
    proof {
        let cnt = mesh.spec_primitive_count();
        if cnt == 0 {
            assert(nodes@ =~= Seq::<GpuNode>::empty());
        }
        assert forall|k: int| 0 <= k < prims@.len() implies (#[trigger] prims@[k])
            == mesh.spec_primitive(k).with_node_index(
            spec_node_slot(k, 0, cnt, 0) as u32,
        ) by {
            assert(mesh.spec_raw_primitives()[k] == mesh.spec_primitive(k));
        }
    }
    Ok(BindlessMesh { vertices, primitives: prims, nodes })
}

} // verus!
