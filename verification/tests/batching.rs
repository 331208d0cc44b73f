//! End-to-end scenarios for the batch storage and the collection driver.

use render_batch::{
    ElementRange, EmitterNode, Frustum, Graph, Matrix4, ObserverInfo, PushRequest,
    RenderDataBatchStorage, RenderPath, SharedMaterial, SurfaceInstanceData, SurfaceSharedData,
    Vector3, Vector4,
};

fn identity_matrix() -> Matrix4 {
    let one = 1.0f32.to_bits();
    Matrix4 {
        r0: Vector4 { x: one, y: 0, z: 0, w: 0 },
        r1: Vector4 { x: 0, y: one, z: 0, w: 0 },
        r2: Vector4 { x: 0, y: 0, z: one, w: 0 },
        r3: Vector4 { x: 0, y: 0, z: 0, w: one },
    }
}

fn zero_matrix() -> Matrix4 {
    let row = Vector4 { x: 0, y: 0, z: 0, w: 0 };
    Matrix4 { r0: row, r1: row, r2: row, r3: row }
}

fn instance(tag: u32, bone_count: usize) -> SurfaceInstanceData {
    let mut bones = Vec::new();
    for _ in 0..bone_count {
        bones.push(identity_matrix());
    }
    SurfaceInstanceData {
        world_transform: identity_matrix(),
        bone_matrices: bones,
        depth_offset: tag,
        blend_shapes_weights: Vec::new(),
        element_range: ElementRange::Full,
    }
}

fn request(
    data_key: u64,
    material_key: u64,
    render_path: RenderPath,
    decal_layer_index: u8,
    sort_index: u64,
    inst: SurfaceInstanceData,
) -> PushRequest {
    PushRequest {
        data: SurfaceSharedData::new(data_key),
        material: SharedMaterial::new(material_key),
        render_path,
        decal_layer_index,
        sort_index,
        instance: inst,
    }
}

fn observer(projection: Matrix4) -> ObserverInfo {
    ObserverInfo {
        observer_position: Vector3 { x: 0, y: 0, z: 0 },
        z_near: 0.1f32.to_bits(),
        z_far: 1000.0f32.to_bits(),
        view_matrix: identity_matrix(),
        projection_matrix: projection,
    }
}

fn unit_frustum() -> Frustum {
    // any non-empty placeholder frustum; the core never reads the planes
    let mut f = Frustum::default();
    f.near.d = 1.0f32.to_bits();
    f
}

#[test]
fn single_opaque_mesh_one_instance() {
    let mut graph = Graph::new();
    graph.add_node(EmitterNode {
        cull: false,
        requests: vec![request(0xAA, 0xBB, RenderPath::Forward, 0, 100, instance(0, 0))],
    });
    let storage = RenderDataBatchStorage::from_graph(
        &graph,
        observer(identity_matrix()),
        "GBuffer",
        Some(unit_frustum()),
    );
    assert_eq!(storage.batches.len(), 1);
    let batch = &storage.batches[0];
    assert_eq!(batch.data.key(), 0xAA);
    assert_eq!(batch.material.key(), 0xBB);
    assert!(!batch.is_skinned);
    assert_eq!(batch.render_path, RenderPath::Forward);
    assert_eq!(batch.decal_layer_index, 0);
    assert_eq!(batch.instances.len(), 1);
    assert_eq!(batch.sort_index, 100);
    assert_eq!(batch.instances[0].world_transform, identity_matrix());
}

#[test]
fn shared_material_and_mesh_share_a_batch() {
    let mut storage = RenderDataBatchStorage::new(2);
    let data = SurfaceSharedData::new(1);
    let material = SharedMaterial::new(2);
    storage.push(&data, &material, RenderPath::Forward, 0, 50, instance(11, 0));
    storage.push(&data, &material, RenderPath::Forward, 0, 75, instance(22, 0));
    assert_eq!(storage.batches.len(), 1);
    let batch = &storage.batches[0];
    // first writer wins: the sort index stays 50
    assert_eq!(batch.sort_index, 50);
    // instances stand in push order
    assert_eq!(batch.instances.len(), 2);
    assert_eq!(batch.instances[0].depth_offset, 11);
    assert_eq!(batch.instances[1].depth_offset, 22);
}

#[test]
fn different_render_path_splits_batches() {
    let mut storage = RenderDataBatchStorage::new(2);
    let data = SurfaceSharedData::new(1);
    let material = SharedMaterial::new(2);
    storage.push(&data, &material, RenderPath::Deferred, 0, 20, instance(1, 0));
    storage.push(&data, &material, RenderPath::Forward, 0, 10, instance(2, 0));
    assert_eq!(storage.batches.len(), 2);
    storage.sort();
    assert_eq!(storage.batches.len(), 2);
    assert_eq!(storage.batches[0].sort_index, 10);
    assert_eq!(storage.batches[0].render_path, RenderPath::Forward);
    assert_eq!(storage.batches[1].sort_index, 20);
    assert_eq!(storage.batches[1].render_path, RenderPath::Deferred);
}

#[test]
fn skinned_and_unskinned_split_batches() {
    let mut storage = RenderDataBatchStorage::new(2);
    let data = SurfaceSharedData::new(1);
    let material = SharedMaterial::new(2);
    storage.push(&data, &material, RenderPath::Forward, 0, 5, instance(1, 0));
    storage.push(&data, &material, RenderPath::Forward, 0, 5, instance(2, 1));
    assert_eq!(storage.batches.len(), 2);
    assert!(!storage.batches[0].is_skinned);
    assert!(storage.batches[1].is_skinned);
    assert_eq!(storage.batches[0].instances.len(), 1);
    assert_eq!(storage.batches[1].instances.len(), 1);
    assert_eq!(storage.batches[1].instances[0].bone_matrices.len(), 1);
}

#[test]
fn sort_orders_batches_by_sort_index() {
    let mut storage = RenderDataBatchStorage::new(3);
    let material = SharedMaterial::new(9);
    storage.push(&SurfaceSharedData::new(1), &material, RenderPath::Forward, 0, 30, instance(1, 0));
    storage.push(&SurfaceSharedData::new(2), &material, RenderPath::Forward, 0, 10, instance(2, 0));
    storage.push(&SurfaceSharedData::new(3), &material, RenderPath::Forward, 0, 20, instance(3, 0));
    // a second instance for the sort-30 batch, pushed before sorting
    storage.push(&SurfaceSharedData::new(1), &material, RenderPath::Forward, 0, 77, instance(4, 0));
    assert_eq!(storage.batches.len(), 3);
    storage.sort();
    assert_eq!(storage.batches[0].sort_index, 10);
    assert_eq!(storage.batches[1].sort_index, 20);
    assert_eq!(storage.batches[2].sort_index, 30);
    // sorting reorders batches, never the instances inside one
    assert_eq!(storage.batches[2].instance_count(), 2);
    assert_eq!(storage.batches[2].instances[0].depth_offset, 1);
    assert_eq!(storage.batches[2].instances[1].depth_offset, 4);
}

#[test]
fn instances_from_two_nodes_share_a_batch() {
    let mut graph = Graph::new();
    graph.add_node(EmitterNode {
        cull: false,
        requests: vec![request(1, 2, RenderPath::Forward, 0, 50, instance(10, 0))],
    });
    graph.add_node(EmitterNode {
        cull: false,
        requests: vec![request(1, 2, RenderPath::Forward, 0, 75, instance(20, 0))],
    });
    let storage = RenderDataBatchStorage::from_graph(
        &graph,
        observer(identity_matrix()),
        "Forward",
        Some(unit_frustum()),
    );
    assert_eq!(storage.batches.len(), 1);
    let batch = &storage.batches[0];
    assert_eq!(batch.sort_index, 50);
    assert_eq!(batch.instance_count(), 2);
    // graph linear order decides the instance order inside the batch
    assert_eq!(batch.instances[0].depth_offset, 10);
    assert_eq!(batch.instances[1].depth_offset, 20);
}

#[test]
fn sort_twice_keeps_the_order() {
    let mut storage = RenderDataBatchStorage::new(3);
    let material = SharedMaterial::new(9);
    storage.push(&SurfaceSharedData::new(1), &material, RenderPath::Forward, 0, 30, instance(1, 0));
    storage.push(&SurfaceSharedData::new(2), &material, RenderPath::Forward, 2, 10, instance(2, 0));
    storage.push(&SurfaceSharedData::new(3), &material, RenderPath::Forward, 0, 10, instance(3, 0));
    storage.sort();
    let once: Vec<(u64, u64)> = storage
        .batches
        .iter()
        .map(|b| (b.sort_index, b.data.key()))
        .collect();
    storage.sort();
    let twice: Vec<(u64, u64)> = storage
        .batches
        .iter()
        .map(|b| (b.sort_index, b.data.key()))
        .collect();
    assert_eq!(once, twice);
    assert_eq!(once[0].0, 10);
    assert_eq!(once[1].0, 10);
    assert_eq!(once[2].0, 30);
}

#[test]
fn push_after_sort_still_groups_correctly() {
    let mut storage = RenderDataBatchStorage::new(2);
    let material = SharedMaterial::new(9);
    let data = SurfaceSharedData::new(7);
    storage.push(&SurfaceSharedData::new(1), &material, RenderPath::Forward, 0, 30, instance(1, 0));
    storage.push(&data, &material, RenderPath::Forward, 0, 10, instance(2, 0));
    storage.sort();
    // the fingerprint map is rebuilt by sort, so a later push still finds its batch
    storage.push(&data, &material, RenderPath::Forward, 0, 99, instance(3, 0));
    assert_eq!(storage.batches.len(), 2);
    assert_eq!(storage.batches[0].sort_index, 10);
    assert_eq!(storage.batches[0].instances.len(), 2);
    assert_eq!(storage.batches[0].instances[1].depth_offset, 3);
}

#[test]
fn thousand_instances_one_batch() {
    let mut requests = Vec::new();
    for i in 0..1000u32 {
        requests.push(request(5, 6, RenderPath::Forward, 1, 42, instance(i, 0)));
    }
    let mut graph = Graph::new();
    graph.add_node(EmitterNode { cull: false, requests });
    let storage = RenderDataBatchStorage::from_graph(
        &graph,
        observer(identity_matrix()),
        "Forward",
        Some(unit_frustum()),
    );
    assert_eq!(storage.batches.len(), 1);
    let batch = &storage.batches[0];
    assert_eq!(batch.instances.len(), 1000);
    assert_eq!(batch.sort_index, 42);
    for i in 0..1000u32 {
        assert_eq!(batch.instances[i as usize].depth_offset, i);
    }
}

#[test]
fn empty_graph_empty_storage() {
    let graph: Graph<EmitterNode> = Graph::new();
    let mut storage = RenderDataBatchStorage::from_graph(
        &graph,
        observer(identity_matrix()),
        "Forward",
        Some(unit_frustum()),
    );
    assert_eq!(storage.batches.len(), 0);
    storage.sort();
    assert_eq!(storage.batches.len(), 0);
}

#[test]
fn degenerate_projection_culls_everything() {
    // the projection is the zero matrix, so the host cannot derive a frustum
    // and hands in none; a culling node then emits nothing
    let mut graph = Graph::new();
    graph.add_node(EmitterNode {
        cull: true,
        requests: vec![request(1, 2, RenderPath::Forward, 0, 10, instance(0, 0))],
    });
    let storage =
        RenderDataBatchStorage::from_graph(&graph, observer(zero_matrix()), "Forward", None);
    assert_eq!(storage.batches.len(), 0);
}

#[test]
fn culling_node_emits_under_a_real_frustum() {
    let mut graph = Graph::new();
    graph.add_node(EmitterNode {
        cull: true,
        requests: vec![request(1, 2, RenderPath::Forward, 0, 10, instance(0, 0))],
    });
    let storage = RenderDataBatchStorage::from_graph(
        &graph,
        observer(identity_matrix()),
        "Forward",
        Some(unit_frustum()),
    );
    assert_eq!(storage.batches.len(), 1);
}

#[test]
fn build_twice_yields_equal_storages() {
    let mut graph = Graph::new();
    graph.add_node(EmitterNode {
        cull: false,
        requests: vec![
            request(1, 2, RenderPath::Forward, 0, 30, instance(1, 0)),
            request(3, 2, RenderPath::Forward, 0, 10, instance(2, 0)),
        ],
    });
    graph.add_node(EmitterNode {
        cull: false,
        requests: vec![request(1, 2, RenderPath::Forward, 0, 99, instance(3, 0))],
    });
    let obs = observer(identity_matrix());
    let a = RenderDataBatchStorage::from_graph(&graph, obs, "Forward", Some(unit_frustum()));
    let b = RenderDataBatchStorage::from_graph(&graph, obs, "Forward", Some(unit_frustum()));
    assert_eq!(a.batches.len(), b.batches.len());
    for (x, y) in a.batches.iter().zip(b.batches.iter()) {
        assert_eq!(x.data.key(), y.data.key());
        assert_eq!(x.material.key(), y.material.key());
        assert_eq!(x.is_skinned, y.is_skinned);
        assert_eq!(x.render_path, y.render_path);
        assert_eq!(x.decal_layer_index, y.decal_layer_index);
        assert_eq!(x.sort_index, y.sort_index);
        assert_eq!(x.instances.len(), y.instances.len());
        for (ix, iy) in x.instances.iter().zip(y.instances.iter()) {
            assert_eq!(ix.world_transform, iy.world_transform);
            assert_eq!(ix.depth_offset, iy.depth_offset);
            assert_eq!(ix.bone_matrices, iy.bone_matrices);
            assert_eq!(ix.blend_shapes_weights, iy.blend_shapes_weights);
            assert_eq!(ix.element_range, iy.element_range);
        }
    }
}

#[test]
fn each_grouping_component_splits_batches() {
    // varying one component of the grouping tuple at a time gives a new batch
    let mut storage = RenderDataBatchStorage::new(8);
    let data = SurfaceSharedData::new(1);
    let material = SharedMaterial::new(2);
    storage.push(&data, &material, RenderPath::Forward, 0, 1, instance(0, 0));
    storage.push(&SurfaceSharedData::new(9), &material, RenderPath::Forward, 0, 1, instance(0, 0));
    storage.push(&data, &SharedMaterial::new(9), RenderPath::Forward, 0, 1, instance(0, 0));
    storage.push(&data, &material, RenderPath::Deferred, 0, 1, instance(0, 0));
    storage.push(&data, &material, RenderPath::Forward, 3, 1, instance(0, 0));
    storage.push(&data, &material, RenderPath::Forward, 0, 1, instance(0, 1));
    assert_eq!(storage.batches.len(), 6);
}

#[test]
fn element_range_and_weights_are_carried_through() {
    let mut storage = RenderDataBatchStorage::new(1);
    let inst = SurfaceInstanceData {
        world_transform: identity_matrix(),
        bone_matrices: Vec::new(),
        depth_offset: 0,
        blend_shapes_weights: vec![0.25f32.to_bits(), 0.75f32.to_bits()],
        element_range: ElementRange::Specific { start: 8, count: 24 },
    };
    storage.push(
        &SurfaceSharedData::new(1),
        &SharedMaterial::new(2),
        RenderPath::Forward,
        0,
        1,
        inst,
    );
    let batch = &storage.batches[0];
    assert_eq!(
        batch.instances[0].element_range,
        ElementRange::Specific { start: 8, count: 24 }
    );
    assert_eq!(
        batch.instances[0].blend_shapes_weights,
        vec![0.25f32.to_bits(), 0.75f32.to_bits()]
    );
}

#[test]
fn default_storage_is_empty() {
    let storage = RenderDataBatchStorage::default();
    assert_eq!(storage.batches.len(), 0);
    assert_eq!(storage.batch_count(), 0);
}

#[test]
fn default_frustum_is_empty() {
    let f = Frustum::default();
    assert!(f.is_empty());
    assert!(!unit_frustum().is_empty());
}
