//! The pipeline's data model: vertices, primitives, stackless nodes, compiled
//! meshes, source mesh descriptions, lifecycle events, and error kinds.
use vstd::prelude::*;
use crate::geometry::Aabb;
use crate::geometry::Vec2Data;
use crate::geometry::Vec3Data;

verus! {

/// A leaf node stores this sentinel in `entry_index`; an internal node's
/// `entry_index` is always a node slot, which stays well below it.
pub const LEAF_ENTRY_SENTINEL: u32 = 0xFFFF_FFFF;

/// One interleaved vertex. Immutable once extracted.
#[derive(Clone, Copy, PartialEq, Eq, Debug)]
pub struct GpuVertex {
    pub position: Vec3Data,
    pub normal: Vec3Data,
    pub uv: Vec2Data,
}

/// One GPU-ready triangle.
#[derive(Clone, Copy, PartialEq, Eq, Debug)]
pub struct GpuPrimitive {
    /// Positions of the three corners, duplicated from the vertex array so a
    /// traversal can read them without indirection.
    pub vertices: [Vec3Data; 3],
    /// Indices of the corners in the owning mesh's local vertex array; a
    /// consumer adds the mesh's vertex offset before addressing the global
    /// buffer.
    pub indices: [u32; 3],
    /// Slot of the leaf node owning this primitive in the local node array;
    /// the extractor leaves a placeholder, the hierarchy builder overwrites.
    pub node_index: u32,
}

impl GpuPrimitive {
    /// The primitive's bounding box: an empty box grown by each corner.
    pub open spec fn spec_aabb(self) -> Aabb {
        Aabb::spec_empty().spec_grow(self.vertices[0]).spec_grow(self.vertices[1]).spec_grow(
            self.vertices[2],
        )
    }

    /// Computes the primitive's bounding box by the empty-box-grow pattern.
    pub fn aabb(&self) -> (r: Aabb)
        ensures
            r == self.spec_aabb(),
    {
        Aabb::empty().grow(self.vertices[0]).grow(self.vertices[1]).grow(self.vertices[2])
    }

    /// The slot of the bounding-hierarchy node owning this primitive.
    pub fn bh_node_index(&self) -> (r: u32)
        ensures
            r == self.node_index,
    {
        self.node_index
    }

    /// Points the primitive at the bounding-hierarchy node owning it.
    pub fn set_bh_node_index(&mut self, index: u32)
        ensures
            *final(self) == (GpuPrimitive { node_index: index, ..*old(self) }),
    {
        self.node_index = index;
    }

    /// The same primitive with another owning node slot.
    pub open spec fn with_node_index(self, index: u32) -> GpuPrimitive {
        GpuPrimitive { node_index: index, ..self }
    }
}

/// One stackless hierarchy node. On a hit the traversal continues at
/// `entry_index` (or tests the leaf's primitives), on a miss at `exit_index`;
/// the root's miss path uses the past-the-end slot, which ends the walk.
#[derive(Clone, Copy, PartialEq, Eq, Debug)]
pub struct GpuNode {
    pub min: Vec3Data,
    pub max: Vec3Data,
    /// First child's slot for an internal node; `LEAF_ENTRY_SENTINEL` marks a
    /// leaf.
    pub entry_index: u32,
    /// The next slot in depth-first order after this node's whole subtree.
    pub exit_index: u32,
    /// For a leaf, the start of its contiguous primitive run in the mesh's
    /// local primitive array; zero on internal nodes.
    pub face_index: u32,
}

impl GpuNode {
    /// A leaf is marked by the sentinel entry index.
    pub open spec fn is_leaf(self) -> bool {
        self.entry_index == LEAF_ENTRY_SENTINEL
    }

    /// The node's box as an `Aabb` value.
    pub open spec fn spec_aabb(self) -> Aabb {
        Aabb { min: self.min, max: self.max }
    }
}

/// The vertices of every mesh, packed back to back in registry order.
#[derive(PartialEq, Eq, Debug)]
pub struct GpuVertexBuffer {
    pub data: Vec<GpuVertex>,
}

/// The primitives of every mesh, packed back to back in registry order.
#[derive(PartialEq, Eq, Debug)]
pub struct GpuPrimitiveBuffer {
    pub data: Vec<GpuPrimitive>,
}

/// The hierarchy nodes of every mesh, packed back to back in registry order.
#[derive(PartialEq, Eq, Debug)]
pub struct GpuNodeBuffer {
    pub data: Vec<GpuNode>,
}

/// One source mesh compiled into vertex, primitive and node arrays; replaced
/// wholesale on re-extraction, destroyed on removal.
#[derive(PartialEq, Eq, Debug)]
pub struct BindlessMesh {
    pub vertices: Vec<GpuVertex>,
    pub primitives: Vec<GpuPrimitive>,
    pub nodes: Vec<GpuNode>,
}

/// A mesh's positions within the three global packed buffers.
#[derive(Clone, Copy, PartialEq, Eq, Debug)]
pub struct GpuBindlessMesh {
    pub vertex_offset: u32,
    pub primitive_offset: u32,
    pub node_offset: u32,
}

/// Why extraction rejected a source mesh. Per-mesh and non-fatal: the mesh is
/// skipped and the rest of the batch goes on.
#[derive(Clone, Copy, PartialEq, Eq, Debug)]
pub enum BindlessMeshError {
    MissingPositionAttribute,
    MissingNormalAttribute,
    MissingUVAttribute,
    IncompatiblePrimitiveTopology,
}

/// How a source mesh's index list is to be read.
#[derive(Clone, Copy, PartialEq, Eq, Debug)]
pub enum MeshTopology {
    PointList,
    LineList,
    LineStrip,
    /// Indices in consecutive, non-overlapping groups of three.
    TriangleList,
    /// Overlapping windows of three indices, winding alternating by parity.
    TriangleStrip,
}

/// A readable source mesh description, as the asset collaborator hands it
/// over. An attribute that is absent, or stored with the wrong element type,
/// arrives as `None`.
#[derive(PartialEq, Eq, Debug)]
pub struct MeshData {
    pub positions: Option<Vec<Vec3Data>>,
    pub normals: Option<Vec<Vec3Data>>,
    pub uvs: Option<Vec<Vec2Data>>,
    /// Explicit index list; when absent, indices default to the identity
    /// sequence over the vertex range.
    pub indices: Option<Vec<u32>>,
    pub topology: MeshTopology,
}

impl Default for Vec3Data {
    /// The origin: every coordinate is the all-zero pattern, which denotes
    /// positive zero.
    fn default() -> (r: Vec3Data)
        ensures
            r == (Vec3Data { x: 0, y: 0, z: 0 }),
    {
        Vec3Data { x: 0, y: 0, z: 0 }
    }
}

impl Default for Vec2Data {
    /// The origin: both coordinates are the all-zero pattern.
    fn default() -> (r: Vec2Data)
        ensures
            r == (Vec2Data { x: 0, y: 0 }),
    {
        Vec2Data { x: 0, y: 0 }
    }
}

impl Default for GpuVertex {
    /// A vertex at the origin with zero normal and texture coordinates.
    fn default() -> (r: GpuVertex)
        ensures
            r.position == (Vec3Data { x: 0, y: 0, z: 0 }),
            r.normal == (Vec3Data { x: 0, y: 0, z: 0 }),
            r.uv == (Vec2Data { x: 0, y: 0 }),
    {
        GpuVertex {
            position: Vec3Data { x: 0, y: 0, z: 0 },
            normal: Vec3Data { x: 0, y: 0, z: 0 },
            uv: Vec2Data { x: 0, y: 0 },
        }
    }
}

impl Default for GpuVertexBuffer {
    /// An empty buffer.
    fn default() -> (r: GpuVertexBuffer)
        ensures
            r.data@ == Seq::<GpuVertex>::empty(),
    {
        let r = GpuVertexBuffer { data: Vec::new() };
        proof {
            assert(r.data@ =~= Seq::<GpuVertex>::empty());
        }
        r
    }
}

impl Default for GpuPrimitiveBuffer {
    /// An empty buffer.
    fn default() -> (r: GpuPrimitiveBuffer)
        ensures
            r.data@ == Seq::<GpuPrimitive>::empty(),
    {
        let r = GpuPrimitiveBuffer { data: Vec::new() };
        proof {
            assert(r.data@ =~= Seq::<GpuPrimitive>::empty());
        }
        r
    }
}

impl Default for GpuNodeBuffer {
    /// An empty buffer.
    fn default() -> (r: GpuNodeBuffer)
        ensures
            r.data@ == Seq::<GpuNode>::empty(),
    {
        let r = GpuNodeBuffer { data: Vec::new() };
        proof {
            assert(r.data@ =~= Seq::<GpuNode>::empty());
        }
        r
    }
}

/// One mesh lifecycle event of a tick's batch.
#[derive(Clone, Copy, PartialEq, Eq, Debug)]
pub enum MeshEvent {
    Created { id: u64 },
    Modified { id: u64 },
    Removed { id: u64 },
}

impl MeshEvent {
    /// The identity the event speaks of.
    pub open spec fn spec_id(self) -> u64 {
        match self {
            MeshEvent::Created { id } => id,
            MeshEvent::Modified { id } => id,
            MeshEvent::Removed { id } => id,
        }
    }
}

} // verus!
