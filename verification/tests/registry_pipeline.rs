use bindless_mesh::extract::extract_mesh;
use bindless_mesh::geometry::Vec2Data;
use bindless_mesh::geometry::Vec3Data;
use bindless_mesh::pack::pack_buffers;
use bindless_mesh::pack::registry_fits_check;
use bindless_mesh::pack::BindlessMeshMeta;
use bindless_mesh::pack::RenderBindlessMeshes;
use bindless_mesh::pipeline::extract_bindless_meshes;
use bindless_mesh::pipeline::prepare_bindless_meshes;
use bindless_mesh::pipeline::ExtractedBindlessMeshes;
use bindless_mesh::registry::BindlessMeshes;
use bindless_mesh::tracker::reduce_events;
use bindless_mesh::types::BindlessMeshError;
use bindless_mesh::types::GpuNodeBuffer;
use bindless_mesh::types::GpuPrimitiveBuffer;
use bindless_mesh::types::GpuVertexBuffer;
use bindless_mesh::types::MeshData;
use bindless_mesh::types::MeshEvent;
use bindless_mesh::types::MeshTopology;

fn v3(x: f32, y: f32, z: f32) -> Vec3Data {
    Vec3Data { x: x.to_bits(), y: y.to_bits(), z: z.to_bits() }
}

fn v2(x: f32, y: f32) -> Vec2Data {
    Vec2Data { x: x.to_bits(), y: y.to_bits() }
}

/// A triangle-list mesh of `n` separate triangles.
fn fan_mesh(n: usize) -> MeshData {
    let mut positions = Vec::new();
    let mut normals = Vec::new();
    let mut uvs = Vec::new();
    let mut indices: Vec<u32> = Vec::new();
    for i in 0..n {
        let x = i as f32;
        positions.push(v3(x, 0.0, 0.0));
        positions.push(v3(x + 0.5, 1.0, 0.0));
        positions.push(v3(x + 1.0, 0.0, 0.0));
        for _ in 0..3 {
            normals.push(v3(0.0, 0.0, 1.0));
            uvs.push(v2(0.0, 0.0));
        }
        let base = (3 * i) as u32;
        indices.push(base);
        indices.push(base + 1);
        indices.push(base + 2);
    }
    MeshData {
        positions: Some(positions),
        normals: Some(normals),
        uvs: Some(uvs),
        indices: Some(indices),
        topology: MeshTopology::TriangleList,
    }
}

fn empty_meta() -> BindlessMeshMeta {
    BindlessMeshMeta {
        vertex_buffer: GpuVertexBuffer { data: Vec::new() },
        primitive_buffer: GpuPrimitiveBuffer { data: Vec::new() },
        node_buffer: GpuNodeBuffer { data: Vec::new() },
    }
}

#[test]
fn tracker_collapses_repeated_events() {
    let events = vec![
        MeshEvent::Created { id: 7 },
        MeshEvent::Modified { id: 7 },
        MeshEvent::Created { id: 7 },
    ];
    let cs = reduce_events(&events);
    assert_eq!(cs.changed.ids, vec![7]);
    assert_eq!(cs.removed.ids.len(), 0);
}

#[test]
fn tracker_removal_wins_over_pending_creation() {
    let events = vec![
        MeshEvent::Created { id: 3 },
        MeshEvent::Modified { id: 4 },
        MeshEvent::Removed { id: 3 },
    ];
    let cs = reduce_events(&events);
    assert_eq!(cs.changed.ids, vec![4]);
    assert_eq!(cs.removed.ids, vec![3]);
}

#[test]
fn tracker_later_creation_cancels_removal() {
    let events = vec![MeshEvent::Removed { id: 5 }, MeshEvent::Created { id: 5 }];
    let cs = reduce_events(&events);
    assert_eq!(cs.changed.ids, vec![5]);
    assert_eq!(cs.removed.ids.len(), 0);
}

#[test]
fn tracker_sets_are_disjoint() {
    let events = vec![
        MeshEvent::Created { id: 1 },
        MeshEvent::Removed { id: 2 },
        MeshEvent::Created { id: 2 },
        MeshEvent::Removed { id: 1 },
        MeshEvent::Modified { id: 9 },
    ];
    let cs = reduce_events(&events);
    for id in &cs.changed.ids {
        assert!(!cs.removed.ids.contains(id));
    }
    assert_eq!(cs.changed.ids, vec![2, 9]);
    assert_eq!(cs.removed.ids, vec![1]);
}

#[test]
fn same_tick_offsets_follow_registry_order() {
    // Mesh A: 2 primitives under identity 1; mesh B: 3 primitives under 2.
    let sources = vec![(1u64, fan_mesh(2)), (2u64, fan_mesh(3))];
    let (batch, failures) = extract_bindless_meshes(&sources, Vec::new());
    assert_eq!(failures.len(), 0);
    assert_eq!(batch.extracted.len(), 2);

    let mut meshes = BindlessMeshes::new();
    let mut meta = empty_meta();
    let mut render = RenderBindlessMeshes { entries: Vec::new() };
    let packed = prepare_bindless_meshes(batch, &mut meshes, &mut meta, &mut render);
    assert!(packed);

    assert_eq!(render.entries.len(), 2);
    let (id_a, off_a) = render.entries[0];
    let (id_b, off_b) = render.entries[1];
    assert_eq!(id_a, 1);
    assert_eq!(id_b, 2);
    assert_eq!(off_a.vertex_offset, 0);
    assert_eq!(off_a.primitive_offset, 0);
    assert_eq!(off_a.node_offset, 0);
    // A has 6 vertices, 2 primitives, 1 node.
    assert_eq!(off_b.vertex_offset, 6);
    assert_eq!(off_b.primitive_offset, 2);
    assert_eq!(off_b.node_offset, 1);
    assert_eq!(meta.vertex_buffer.data.len(), 6 + 9);
    assert_eq!(meta.primitive_buffer.data.len(), 2 + 3);
    assert_eq!(meta.node_buffer.data.len(), 1 + 1);
    // Offsets never decrease along the registry.
    assert!(off_a.vertex_offset <= off_b.vertex_offset);
    assert!(off_a.primitive_offset <= off_b.primitive_offset);
    assert!(off_a.node_offset <= off_b.node_offset);
}

#[test]
fn registry_iterates_in_ascending_identity_order() {
    // Insert under descending identities; packing still goes by identity.
    let sources = vec![(9u64, fan_mesh(1)), (4u64, fan_mesh(1)), (6u64, fan_mesh(1))];
    let (batch, _) = extract_bindless_meshes(&sources, Vec::new());
    let mut meshes = BindlessMeshes::new();
    let mut meta = empty_meta();
    let mut render = RenderBindlessMeshes { entries: Vec::new() };
    assert!(prepare_bindless_meshes(batch, &mut meshes, &mut meta, &mut render));
    let ids: Vec<u64> = render.entries.iter().map(|e| e.0).collect();
    assert_eq!(ids, vec![4, 6, 9]);
}

#[test]
fn repack_is_idempotent() {
    let sources = vec![(1u64, fan_mesh(2)), (2u64, fan_mesh(5))];
    let (batch, _) = extract_bindless_meshes(&sources, Vec::new());
    let mut meshes = BindlessMeshes::new();
    let mut meta = empty_meta();
    let mut render = RenderBindlessMeshes { entries: Vec::new() };
    assert!(prepare_bindless_meshes(batch, &mut meshes, &mut meta, &mut render));

    let mut meta2 = empty_meta();
    let mut render2 = RenderBindlessMeshes { entries: Vec::new() };
    assert!(registry_fits_check(&meshes));
    pack_buffers(&meshes, &mut meta2, &mut render2);
    assert_eq!(meta.vertex_buffer.data, meta2.vertex_buffer.data);
    assert_eq!(meta.primitive_buffer.data, meta2.primitive_buffer.data);
    assert_eq!(meta.node_buffer.data, meta2.node_buffer.data);
    assert_eq!(render.entries, render2.entries);
}

#[test]
fn empty_batch_is_not_dirty() {
    let sources = vec![(1u64, fan_mesh(2))];
    let (batch, _) = extract_bindless_meshes(&sources, Vec::new());
    let mut meshes = BindlessMeshes::new();
    let mut meta = empty_meta();
    let mut render = RenderBindlessMeshes { entries: Vec::new() };
    assert!(prepare_bindless_meshes(batch, &mut meshes, &mut meta, &mut render));
    let before = meta.vertex_buffer.data.clone();

    let empty = ExtractedBindlessMeshes { extracted: Vec::new(), removed: Vec::new() };
    let packed = prepare_bindless_meshes(empty, &mut meshes, &mut meta, &mut render);
    assert!(!packed);
    assert_eq!(meta.vertex_buffer.data, before);
    assert_eq!(meshes.len(), 1);
}

#[test]
fn failed_extraction_leaves_registry_and_buffers_alone() {
    let mut bad = fan_mesh(2);
    bad.normals = None;
    let events = vec![MeshEvent::Created { id: 11 }];
    let cs = reduce_events(&events);
    assert_eq!(cs.changed.ids, vec![11]);

    let sources = vec![(11u64, bad)];
    let (batch, failures) = extract_bindless_meshes(&sources, cs.removed.ids);
    assert_eq!(failures, vec![(11u64, BindlessMeshError::MissingNormalAttribute)]);
    assert_eq!(batch.extracted.len(), 0);

    let mut meshes = BindlessMeshes::new();
    let mut meta = empty_meta();
    let mut render = RenderBindlessMeshes { entries: Vec::new() };
    let packed = prepare_bindless_meshes(batch, &mut meshes, &mut meta, &mut render);
    assert!(!packed);
    assert_eq!(meshes.len(), 0);
    assert_eq!(meta.vertex_buffer.data.len(), 0);
    assert_eq!(render.entries.len(), 0);
}

#[test]
fn insert_replaces_wholesale() {
    let mut meshes = BindlessMeshes::new();
    meshes.insert(5, extract_mesh(&fan_mesh(2)).unwrap());
    meshes.insert(5, extract_mesh(&fan_mesh(3)).unwrap());
    assert_eq!(meshes.len(), 1);
    assert_eq!(meshes.get(5).unwrap().primitives.len(), 3);
}

#[test]
fn remove_then_readd_restores_the_mesh() {
    let source = fan_mesh(3);
    let original = extract_mesh(&source).unwrap();
    let mut meshes = BindlessMeshes::new();
    meshes.insert(8, extract_mesh(&source).unwrap());
    meshes.remove(8);
    assert!(meshes.get(8).is_none());
    meshes.insert(8, extract_mesh(&source).unwrap());
    let back = meshes.get(8).unwrap();
    assert_eq!(back.vertices, original.vertices);
    assert_eq!(back.primitives, original.primitives);
    assert_eq!(back.nodes, original.nodes);
}

#[test]
fn get_on_empty_registry_finds_nothing() {
    let meshes = BindlessMeshes::new();
    assert!(meshes.get(0).is_none());
    assert!(meshes.get(u64::MAX).is_none());
    assert_eq!(meshes.len(), 0);
}

#[test]
fn registry_keeps_entries_sorted_under_mixed_operations() {
    let mut meshes = BindlessMeshes::new();
    for id in [42u64, 7, 99, 23, 7] {
        meshes.insert(id, extract_mesh(&fan_mesh(1)).unwrap());
    }
    meshes.remove(23);
    meshes.remove(1000);
    let ids: Vec<u64> = meshes.iterate().iter().map(|e| e.0).collect();
    assert_eq!(ids, vec![7, 42, 99]);
    assert!(meshes.get(42).is_some());
    assert!(meshes.get(23).is_none());
}

#[test]
fn evicting_an_unknown_identity_still_repacks() {
    let sources = vec![(1u64, fan_mesh(2))];
    let (batch, _) = extract_bindless_meshes(&sources, Vec::new());
    let mut meshes = BindlessMeshes::new();
    let mut meta = empty_meta();
    let mut render = RenderBindlessMeshes { entries: Vec::new() };
    assert!(prepare_bindless_meshes(batch, &mut meshes, &mut meta, &mut render));

    let eviction = ExtractedBindlessMeshes { extracted: Vec::new(), removed: vec![999] };
    let packed = prepare_bindless_meshes(eviction, &mut meshes, &mut meta, &mut render);
    assert!(packed);
    assert_eq!(meshes.len(), 1);
    assert_eq!(render.entries.len(), 1);
}

#[test]
fn removal_tick_evicts_and_repacks() {
    let sources = vec![(1u64, fan_mesh(2)), (2u64, fan_mesh(3))];
    let (batch, _) = extract_bindless_meshes(&sources, Vec::new());
    let mut meshes = BindlessMeshes::new();
    let mut meta = empty_meta();
    let mut render = RenderBindlessMeshes { entries: Vec::new() };
    assert!(prepare_bindless_meshes(batch, &mut meshes, &mut meta, &mut render));

    let eviction = ExtractedBindlessMeshes { extracted: Vec::new(), removed: vec![1] };
    assert!(prepare_bindless_meshes(eviction, &mut meshes, &mut meta, &mut render));
    assert_eq!(meshes.len(), 1);
    assert_eq!(render.entries.len(), 1);
    assert_eq!(render.entries[0].0, 2);
    assert_eq!(render.entries[0].1.vertex_offset, 0);
    assert_eq!(meta.vertex_buffer.data.len(), 9);
}
