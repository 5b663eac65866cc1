use bindless_mesh::extract::extract_mesh;
use bindless_mesh::extract::extract_primitives;
use bindless_mesh::geometry::Vec2Data;
use bindless_mesh::geometry::Vec3Data;
use bindless_mesh::types::BindlessMeshError;
use bindless_mesh::types::GpuVertex;
use bindless_mesh::types::MeshData;
use bindless_mesh::types::MeshTopology;
use bindless_mesh::types::LEAF_ENTRY_SENTINEL;

fn v3(x: f32, y: f32, z: f32) -> Vec3Data {
    Vec3Data { x: x.to_bits(), y: y.to_bits(), z: z.to_bits() }
}

fn v2(x: f32, y: f32) -> Vec2Data {
    Vec2Data { x: x.to_bits(), y: y.to_bits() }
}

fn vert(p: Vec3Data) -> GpuVertex {
    GpuVertex { position: p, normal: v3(0.0, 0.0, 1.0), uv: v2(0.0, 0.0) }
}

fn quad_mesh() -> MeshData {
    MeshData {
        positions: Some(vec![
            v3(0.0, 0.0, 0.0),
            v3(1.0, 0.0, 0.0),
            v3(1.0, 1.0, 0.0),
            v3(0.0, 1.0, 0.0),
        ]),
        normals: Some(vec![
            v3(0.0, 0.0, 1.0),
            v3(0.0, 0.0, 1.0),
            v3(0.0, 0.0, 1.0),
            v3(0.0, 0.0, 1.0),
        ]),
        uvs: Some(vec![v2(0.0, 0.0), v2(1.0, 0.0), v2(1.0, 1.0), v2(0.0, 1.0)]),
        indices: Some(vec![0, 1, 2, 0, 2, 3]),
        topology: MeshTopology::TriangleList,
    }
}

fn strip_verts(n: usize) -> Vec<GpuVertex> {
    let mut out = Vec::new();
    for i in 0..n {
        out.push(vert(v3(i as f32, 0.0, 0.0)));
    }
    out
}

#[test]
fn triangle_list_counts_and_indices() {
    let verts = strip_verts(6);
    let idx: Vec<u32> = vec![0, 1, 2, 3, 4, 5];
    let prims = extract_primitives(&verts, &idx, MeshTopology::TriangleList).unwrap();
    assert_eq!(prims.len(), 2);
    assert_eq!(prims[0].indices, [0, 1, 2]);
    assert_eq!(prims[1].indices, [3, 4, 5]);
    assert_eq!(prims[0].vertices[1], verts[1].position);
    assert_eq!(prims[1].vertices[2], verts[5].position);
    assert_eq!(prims[0].node_index, 0);
}

#[test]
fn triangle_list_partial_group_fails() {
    let verts = strip_verts(4);
    let idx: Vec<u32> = vec![0, 1, 2, 3];
    let r = extract_primitives(&verts, &idx, MeshTopology::TriangleList);
    assert!(matches!(r, Err(BindlessMeshError::IncompatiblePrimitiveTopology)));
}

#[test]
fn triangle_strip_counts_and_windings() {
    let verts = strip_verts(5);
    let idx: Vec<u32> = vec![0, 1, 2, 3, 4];
    let prims = extract_primitives(&verts, &idx, MeshTopology::TriangleStrip).unwrap();
    assert_eq!(prims.len(), 3);
    assert_eq!(prims[0].indices, [0, 1, 2]);
    assert_eq!(prims[1].indices, [2, 1, 3]);
    assert_eq!(prims[2].indices, [2, 3, 4]);
    assert_eq!(prims[1].vertices[0], verts[2].position);
}

#[test]
fn triangle_strip_too_short_yields_nothing() {
    let verts = strip_verts(2);
    let idx: Vec<u32> = vec![0, 1];
    let prims = extract_primitives(&verts, &idx, MeshTopology::TriangleStrip).unwrap();
    assert_eq!(prims.len(), 0);
}

#[test]
fn other_topology_fails() {
    let verts = strip_verts(3);
    let idx: Vec<u32> = vec![0, 1, 2];
    let r = extract_primitives(&verts, &idx, MeshTopology::LineList);
    assert!(matches!(r, Err(BindlessMeshError::IncompatiblePrimitiveTopology)));
}

#[test]
fn quad_compiles_to_one_leaf() {
    let mesh = quad_mesh();
    let m = extract_mesh(&mesh).unwrap();
    assert_eq!(m.vertices.len(), 4);
    assert_eq!(m.primitives.len(), 2);
    assert_eq!(m.nodes.len(), 1);
    let node = &m.nodes[0];
    assert_eq!(node.entry_index, LEAF_ENTRY_SENTINEL);
    assert_eq!(node.exit_index, 1);
    assert_eq!(node.face_index, 0);
    assert_eq!(node.min, v3(0.0, 0.0, 0.0));
    assert_eq!(node.max, v3(1.0, 1.0, 0.0));
    assert_eq!(m.primitives[0].node_index, 0);
    assert_eq!(m.primitives[1].node_index, 0);
    assert_eq!(m.vertices[2].position, v3(1.0, 1.0, 0.0));
    assert_eq!(m.vertices[3].uv, v2(0.0, 1.0));
}

#[test]
fn missing_attributes_are_reported_in_order() {
    let mut no_normals = quad_mesh();
    no_normals.normals = None;
    assert!(matches!(extract_mesh(&no_normals), Err(BindlessMeshError::MissingNormalAttribute)));

    let mut no_positions = quad_mesh();
    no_positions.positions = None;
    no_positions.normals = None;
    assert!(matches!(
        extract_mesh(&no_positions),
        Err(BindlessMeshError::MissingPositionAttribute)
    ));

    let mut no_uvs = quad_mesh();
    no_uvs.uvs = None;
    assert!(matches!(extract_mesh(&no_uvs), Err(BindlessMeshError::MissingUVAttribute)));

    let mut bad_topology = quad_mesh();
    bad_topology.topology = MeshTopology::PointList;
    assert!(matches!(
        extract_mesh(&bad_topology),
        Err(BindlessMeshError::IncompatiblePrimitiveTopology)
    ));
}

#[test]
fn default_indices_are_identity() {
    let mesh = MeshData {
        positions: Some(vec![v3(0.0, 0.0, 0.0), v3(1.0, 0.0, 0.0), v3(0.0, 1.0, 0.0)]),
        normals: Some(vec![v3(0.0, 0.0, 1.0), v3(0.0, 0.0, 1.0), v3(0.0, 0.0, 1.0)]),
        uvs: Some(vec![v2(0.0, 0.0), v2(1.0, 0.0), v2(0.0, 1.0)]),
        indices: None,
        topology: MeshTopology::TriangleList,
    };
    let m = extract_mesh(&mesh).unwrap();
    assert_eq!(m.primitives.len(), 1);
    assert_eq!(m.primitives[0].indices, [0, 1, 2]);
}

#[test]
fn attributes_are_consumed_in_lockstep() {
    let mesh = MeshData {
        positions: Some(vec![
            v3(0.0, 0.0, 0.0),
            v3(1.0, 0.0, 0.0),
            v3(0.0, 1.0, 0.0),
            v3(9.0, 9.0, 9.0),
        ]),
        normals: Some(vec![v3(0.0, 0.0, 1.0), v3(0.0, 0.0, 1.0), v3(0.0, 0.0, 1.0)]),
        uvs: Some(vec![v2(0.0, 0.0), v2(1.0, 0.0), v2(0.0, 1.0), v2(0.5, 0.5)]),
        indices: None,
        topology: MeshTopology::TriangleList,
    };
    let m = extract_mesh(&mesh).unwrap();
    assert_eq!(m.vertices.len(), 3);
    assert_eq!(m.primitives.len(), 1);
}

#[test]
fn six_primitives_split_into_two_leaves() {
    let mut positions = Vec::new();
    let mut normals = Vec::new();
    let mut uvs = Vec::new();
    let mut indices: Vec<u32> = Vec::new();
    for i in 0..6 {
        let x = i as f32;
        positions.push(v3(x, 0.0, 0.0));
        positions.push(v3(x + 0.5, 1.0, 0.0));
        positions.push(v3(x + 1.0, 0.0, 0.0));
        for _ in 0..3 {
            normals.push(v3(0.0, 0.0, 1.0));
            uvs.push(v2(0.0, 0.0));
        }
        let base = (3 * i) as u32;
        indices.push(base);
        indices.push(base + 1);
        indices.push(base + 2);
    }
    let mesh = MeshData {
        positions: Some(positions),
        normals: Some(normals),
        uvs: Some(uvs),
        indices: Some(indices),
        topology: MeshTopology::TriangleList,
    };
    let m = extract_mesh(&mesh).unwrap();
    assert_eq!(m.primitives.len(), 6);
    // Six primitives exceed one leaf: a root plus two leaves of three.
    assert_eq!(m.nodes.len(), 3);
    let root = &m.nodes[0];
    let left = &m.nodes[1];
    let right = &m.nodes[2];
    assert_ne!(root.entry_index, LEAF_ENTRY_SENTINEL);
    assert_eq!(root.entry_index, 1);
    assert_eq!(root.exit_index, 3);
    assert_eq!(left.entry_index, LEAF_ENTRY_SENTINEL);
    assert_eq!(left.exit_index, 2);
    assert_eq!(left.face_index, 0);
    assert_eq!(right.entry_index, LEAF_ENTRY_SENTINEL);
    assert_eq!(right.exit_index, 3);
    assert_eq!(right.face_index, 3);
    for k in 0..3 {
        assert_eq!(m.primitives[k].node_index, 1);
    }
    for k in 3..6 {
        assert_eq!(m.primitives[k].node_index, 2);
    }
    // Containment, checked on the f32 values the bit patterns denote.
    for child in [left, right] {
        for (lo, hi, clo, chi) in [
            (root.min.x, root.max.x, child.min.x, child.max.x),
            (root.min.y, root.max.y, child.min.y, child.max.y),
            (root.min.z, root.max.z, child.min.z, child.max.z),
        ] {
            assert!(f32::from_bits(lo) <= f32::from_bits(clo));
            assert!(f32::from_bits(chi) <= f32::from_bits(hi));
        }
    }
    assert_eq!(root.min, v3(0.0, 0.0, 0.0));
    assert_eq!(root.max, v3(6.0, 1.0, 0.0));
    assert_eq!(left.max, v3(3.0, 1.0, 0.0));
    assert_eq!(right.min, v3(3.0, 0.0, 0.0));
}

#[test]
fn strip_mesh_compiles_end_to_end() {
    let mesh = MeshData {
        positions: Some(vec![
            v3(0.0, 0.0, 0.0),
            v3(1.0, 0.0, 0.0),
            v3(0.0, 1.0, 0.0),
            v3(1.0, 1.0, 0.0),
        ]),
        normals: Some(vec![v3(0.0, 0.0, 1.0); 4]),
        uvs: Some(vec![v2(0.0, 0.0); 4]),
        indices: Some(vec![0, 1, 2, 3]),
        topology: MeshTopology::TriangleStrip,
    };
    let m = extract_mesh(&mesh).unwrap();
    assert_eq!(m.primitives.len(), 2);
    assert_eq!(m.primitives[0].indices, [0, 1, 2]);
    assert_eq!(m.primitives[1].indices, [2, 1, 3]);
    assert_eq!(m.nodes.len(), 1);
}

#[test]
fn twelve_primitives_flatten_to_a_stackless_run() {
    let mut positions = Vec::new();
    let mut normals = Vec::new();
    let mut uvs = Vec::new();
    let mut indices: Vec<u32> = Vec::new();
    for i in 0..12 {
        let x = i as f32;
        positions.push(v3(x, 0.0, 0.0));
        positions.push(v3(x + 0.5, 1.0, 0.0));
        positions.push(v3(x + 1.0, 0.0, 0.0));
        for _ in 0..3 {
            normals.push(v3(0.0, 0.0, 1.0));
            uvs.push(v2(0.0, 0.0));
        }
        let base = (3 * i) as u32;
        indices.push(base);
        indices.push(base + 1);
        indices.push(base + 2);
    }
    let mesh = MeshData {
        positions: Some(positions),
        normals: Some(normals),
        uvs: Some(uvs),
        indices: Some(indices),
        topology: MeshTopology::TriangleList,
    };
    let m = extract_mesh(&mesh).unwrap();
    // Twelve primitives: root, two internal children, four leaves of three.
    assert_eq!(m.nodes.len(), 7);
    assert_eq!(m.nodes[0].entry_index, 1);
    assert_eq!(m.nodes[0].exit_index, 7);
    assert_eq!(m.nodes[1].entry_index, 2);
    assert_eq!(m.nodes[1].exit_index, 4);
    assert_eq!(m.nodes[4].entry_index, 5);
    assert_eq!(m.nodes[4].exit_index, 7);
    let leaf_faces: Vec<(usize, u32)> =
        [2usize, 3, 5, 6].iter().map(|&s| (s, m.nodes[s].face_index)).collect();
    assert_eq!(leaf_faces, vec![(2, 0), (3, 3), (5, 6), (6, 9)]);
    // An always-hit stackless walk visits every node once, depth first.
    let mut visited = Vec::new();
    let mut slot = 0u32;
    while (slot as usize) < m.nodes.len() {
        visited.push(slot);
        let node = &m.nodes[slot as usize];
        slot = if node.entry_index == LEAF_ENTRY_SENTINEL {
            node.exit_index
        } else {
            node.entry_index
        };
    }
    assert_eq!(visited, vec![0, 1, 2, 3, 4, 5, 6]);
    // Each primitive's back-reference names the leaf whose run holds it.
    for (k, p) in m.primitives.iter().enumerate() {
        let leaf = &m.nodes[p.node_index as usize];
        assert_eq!(leaf.entry_index, LEAF_ENTRY_SENTINEL);
        assert!((leaf.face_index as usize) <= k);
        assert!(k < leaf.face_index as usize + 3);
    }
}

#[test]
fn extraction_is_deterministic() {
    let mesh = quad_mesh();
    let a = extract_mesh(&mesh).unwrap();
    let b = extract_mesh(&mesh).unwrap();
    assert_eq!(a.vertices, b.vertices);
    assert_eq!(a.primitives, b.primitives);
    assert_eq!(a.nodes, b.nodes);
}
