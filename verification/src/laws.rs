//! The laws of the batch storage, stated and proved over the mathematical
//! model that the executable functions' contracts speak of.

use vstd::prelude::*;

use crate::batch::{
    batch_index_of, batches_distinct, fingerprint_of, has_batch, push_target, skin_consistent,
    sort_spec, sorted_by_sort_index, spec_push, BatchModel, RenderDataBatchStorage,
};
use crate::context::{spec_from_graph, CollectRenderData, ObserverInfo};
use crate::math::{empty_frustum, Frustum};
use crate::surface::{
    instance_skinned, render_path_id, InstanceModel, RenderPath, SharedMaterial, SurfaceSharedData,
};

verus! {

/// Every batch in a well-formed storage holds at least one instance, after any
/// number of pushes: `push` keeps the storage well formed and well-formedness
/// includes non-emptiness.
pub proof fn lemma_batches_nonempty(s: &RenderDataBatchStorage)
    requires
        s.wf(),
    ensures
        forall|i: int| 0 <= i < s@.len() ==> (#[trigger] s@[i]).instances.len() > 0,
{
}

/// The shape of one push. The pushed instance lands in the batch at
/// `push_target`, appended at the end of that batch's instance list, so
/// within a batch the instances stand in push order. Every other batch is
/// left untouched. Where the push creates a batch, the batch carries this
/// push's metadata and sort index; where it joins one, the batch's metadata —
/// its sort index above all — stays as its creator wrote it (first writer
/// wins). Distinctness of fingerprints is preserved.
pub proof fn lemma_push_shape(
    batches: Seq<BatchModel>,
    data: SurfaceSharedData,
    material: SharedMaterial,
    render_path: RenderPath,
    decal_layer_index: u8,
    sort_index: u64,
    instance: InstanceModel,
)
    ensures
        ({
            let fp = fingerprint_of(
                material.spec_key(),
                data.spec_key(),
                instance_skinned(instance),
                decal_layer_index,
                render_path_id(render_path),
            );
            let t = push_target(batches, data, material, render_path, decal_layer_index, instance);
            let r = spec_push(
                batches,
                data,
                material,
                render_path,
                decal_layer_index,
                sort_index,
                instance,
            );
            &&& 0 <= t < r.len()
            &&& r.len() == (if has_batch(batches, fp) {
                batches.len() as int
            } else {
                batches.len() as int + 1
            })
            &&& r[t].fingerprint == fp
            &&& (has_batch(batches, fp) ==> r[t] == (BatchModel {
                instances: batches[t].instances.push(instance),
                ..batches[t]
            }))
            &&& (!has_batch(batches, fp) ==> t == batches.len() && r[t] == (BatchModel {
                data,
                material,
                is_skinned: instance_skinned(instance),
                render_path,
                decal_layer_index,
                sort_index,
                fingerprint: fp,
                instances: seq![instance],
            }))
            &&& forall|i: int| 0 <= i < batches.len() && i != t ==> r[i] == batches[i]
            &&& (batches_distinct(batches) ==> batches_distinct(r))
        }),
{
    let fp = fingerprint_of(
        material.spec_key(),
        data.spec_key(),
        instance_skinned(instance),
        decal_layer_index,
        render_path_id(render_path),
    );
    let t = push_target(batches, data, material, render_path, decal_layer_index, instance);
    let r = spec_push(batches, data, material, render_path, decal_layer_index, sort_index, instance);
    if has_batch(batches, fp) {
        assert(0 <= t < batches.len() && batches[t].fingerprint == fp);
        if batches_distinct(batches) {
            assert forall|i: int, j: int|
                0 <= i < r.len() && 0 <= j < r.len() && i != j implies (#[trigger] r[i]).fingerprint
                != (#[trigger] r[j]).fingerprint by {
                assert(r[i].fingerprint == batches[i].fingerprint);
                assert(r[j].fingerprint == batches[j].fingerprint);
            }
        }
    } else {
        if batches_distinct(batches) {
            assert forall|i: int, j: int|
                0 <= i < r.len() && 0 <= j < r.len() && i != j implies (#[trigger] r[i]).fingerprint
                != (#[trigger] r[j]).fingerprint by {
                if i < batches.len() && j < batches.len() {
                } else if i == batches.len() as int {
                    assert(r[j] == batches[j]);
                    if r[j].fingerprint == fp {
                        assert(has_batch(batches, fp));
                    }
                } else {
                    assert(r[i] == batches[i]);
                    if r[i].fingerprint == fp {
                        assert(has_batch(batches, fp));
                    }
                }
            }
        }
    }
}

/// No push changes the sort index of a batch that already exists, and a batch
/// created by a push carries that push's sort index: first writer wins.
pub proof fn lemma_first_writer_wins(
    batches: Seq<BatchModel>,
    data: SurfaceSharedData,
    material: SharedMaterial,
    render_path: RenderPath,
    decal_layer_index: u8,
    sort_index: u64,
    instance: InstanceModel,
)
    ensures
        ({
            let r = spec_push(
                batches,
                data,
                material,
                render_path,
                decal_layer_index,
                sort_index,
                instance,
            );
            &&& forall|i: int|
                0 <= i < batches.len() ==> (#[trigger] r[i]).sort_index == batches[i].sort_index
            &&& r.len() > batches.len() ==> r[batches.len() as int].sort_index == sort_index
        }),
{
    lemma_push_shape(batches, data, material, render_path, decal_layer_index, sort_index, instance);
}

/// Two instances contributed with identical grouping tuples (same material
/// key, same surface data key, same skinning flag, same render path, same
/// decal layer) land in the same batch: the second push targets exactly the
/// batch the first one did, and appends behind the first instance.
pub proof fn lemma_same_group_same_batch(
    batches: Seq<BatchModel>,
    data: SurfaceSharedData,
    material: SharedMaterial,
    render_path: RenderPath,
    decal_layer_index: u8,
    sort_index1: u64,
    sort_index2: u64,
    instance1: InstanceModel,
    instance2: InstanceModel,
)
    requires
        batches_distinct(batches),
        instance_skinned(instance1) == instance_skinned(instance2),
    ensures
        ({
            let s1 = spec_push(
                batches,
                data,
                material,
                render_path,
                decal_layer_index,
                sort_index1,
                instance1,
            );
            let t = push_target(batches, data, material, render_path, decal_layer_index, instance1);
            let s2 = spec_push(
                s1,
                data,
                material,
                render_path,
                decal_layer_index,
                sort_index2,
                instance2,
            );
            &&& push_target(s1, data, material, render_path, decal_layer_index, instance2) == t
            &&& s2[t] == (BatchModel { instances: s1[t].instances.push(instance2), ..s1[t] })
        }),
{
    let fp = fingerprint_of(
        material.spec_key(),
        data.spec_key(),
        instance_skinned(instance1),
        decal_layer_index,
        render_path_id(render_path),
    );
    lemma_push_shape(
        batches,
        data,
        material,
        render_path,
        decal_layer_index,
        sort_index1,
        instance1,
    );
    let s1 = spec_push(
        batches,
        data,
        material,
        render_path,
        decal_layer_index,
        sort_index1,
        instance1,
    );
    let t = push_target(batches, data, material, render_path, decal_layer_index, instance1);
    assert(s1[t].fingerprint == fp);
    assert(has_batch(s1, fp));
    lemma_push_shape(s1, data, material, render_path, decal_layer_index, sort_index2, instance2);
    let u = batch_index_of(s1, fp);
    assert(0 <= u < s1.len() && s1[u].fingerprint == fp);
    assert(batches_distinct(s1));
    assert(u == t);
}

/// Two instances whose grouping tuples differ in any component land in
/// different batches, as long as the two tuples' fingerprints differ — the
/// grouping key is the fingerprint, and the design accepts the negligible
/// risk of a collision between distinct tuples.
pub proof fn lemma_distinct_groups_distinct_batches(
    batches: Seq<BatchModel>,
    data1: SurfaceSharedData,
    material1: SharedMaterial,
    render_path1: RenderPath,
    decal_layer_index1: u8,
    sort_index1: u64,
    instance1: InstanceModel,
    data2: SurfaceSharedData,
    material2: SharedMaterial,
    render_path2: RenderPath,
    decal_layer_index2: u8,
    sort_index2: u64,
    instance2: InstanceModel,
)
    requires
        batches_distinct(batches),
    ensures
        ({
            let fp1 = fingerprint_of(
                material1.spec_key(),
                data1.spec_key(),
                instance_skinned(instance1),
                decal_layer_index1,
                render_path_id(render_path1),
            );
            let fp2 = fingerprint_of(
                material2.spec_key(),
                data2.spec_key(),
                instance_skinned(instance2),
                decal_layer_index2,
                render_path_id(render_path2),
            );
            let s1 = spec_push(
                batches,
                data1,
                material1,
                render_path1,
                decal_layer_index1,
                sort_index1,
                instance1,
            );
            let t1 = push_target(
                batches,
                data1,
                material1,
                render_path1,
                decal_layer_index1,
                instance1,
            );
            let t2 = push_target(s1, data2, material2, render_path2, decal_layer_index2, instance2);
            let s2 = spec_push(
                s1,
                data2,
                material2,
                render_path2,
                decal_layer_index2,
                sort_index2,
                instance2,
            );
            fp1 != fp2 ==> t1 != t2 && s2[t2].fingerprint != s1[t1].fingerprint
        }),
{
    let fp1 = fingerprint_of(
        material1.spec_key(),
        data1.spec_key(),
        instance_skinned(instance1),
        decal_layer_index1,
        render_path_id(render_path1),
    );
    let fp2 = fingerprint_of(
        material2.spec_key(),
        data2.spec_key(),
        instance_skinned(instance2),
        decal_layer_index2,
        render_path_id(render_path2),
    );
    lemma_push_shape(
        batches,
        data1,
        material1,
        render_path1,
        decal_layer_index1,
        sort_index1,
        instance1,
    );
    let s1 = spec_push(
        batches,
        data1,
        material1,
        render_path1,
        decal_layer_index1,
        sort_index1,
        instance1,
    );
    let t1 = push_target(batches, data1, material1, render_path1, decal_layer_index1, instance1);
    lemma_push_shape(s1, data2, material2, render_path2, decal_layer_index2, sort_index2, instance2);
    let t2 = push_target(s1, data2, material2, render_path2, decal_layer_index2, instance2);
    if fp1 != fp2 {
        assert(s1[t1].fingerprint == fp1);
        if has_batch(s1, fp2) {
            assert(s1[t2].fingerprint == fp2);
        }
    }
}

/// A batch's skinning flag agrees with every one of its instances, push after
/// push, provided no instance joins (by fingerprint) a batch of the opposite
/// skinnedness — which only a fingerprint collision between a skinned and an
/// unskinned grouping tuple could cause.
pub proof fn lemma_push_keeps_skin_consistent(
    batches: Seq<BatchModel>,
    data: SurfaceSharedData,
    material: SharedMaterial,
    render_path: RenderPath,
    decal_layer_index: u8,
    sort_index: u64,
    instance: InstanceModel,
)
    requires
        skin_consistent(batches),
    ensures
        ({
            let t = push_target(batches, data, material, render_path, decal_layer_index, instance);
            let r = spec_push(
                batches,
                data,
                material,
                render_path,
                decal_layer_index,
                sort_index,
                instance,
            );
            (t < batches.len() ==> batches[t].is_skinned == instance_skinned(instance))
                ==> skin_consistent(r)
        }),
{
    let t = push_target(batches, data, material, render_path, decal_layer_index, instance);
    let r = spec_push(batches, data, material, render_path, decal_layer_index, sort_index, instance);
    lemma_push_shape(batches, data, material, render_path, decal_layer_index, sort_index, instance);
    if t < batches.len() ==> batches[t].is_skinned == instance_skinned(instance) {
        assert forall|i: int, k: int|
            0 <= i < r.len() && 0 <= k < (#[trigger] r[i]).instances.len() implies instance_skinned(
            #[trigger] r[i].instances[k],
        ) == r[i].is_skinned by {
            if i != t {
                assert(r[i] == batches[i]);
            } else if t < batches.len() {
                assert(r[t].instances == batches[t].instances.push(instance));
                assert(r[t].is_skinned == batches[t].is_skinned);
                if k < batches[t].instances.len() {
                    assert(r[t].instances[k] == batches[t].instances[k]);
                }
            } else {
                assert(r[t].instances == seq![instance]);
            }
        }
    }
}

/// The first `k` of a run of pushes that all carry one grouping tuple, applied
/// to a batch list.
pub open spec fn push_repeated(
    batches: Seq<BatchModel>,
    data: SurfaceSharedData,
    material: SharedMaterial,
    render_path: RenderPath,
    decal_layer_index: u8,
    sort_indices: Seq<u64>,
    instances: Seq<InstanceModel>,
    k: int,
) -> Seq<BatchModel>
    decreases k,
{
    if k <= 0 {
        batches
    } else {
        spec_push(
            push_repeated(
                batches,
                data,
                material,
                render_path,
                decal_layer_index,
                sort_indices,
                instances,
                k - 1,
            ),
            data,
            material,
            render_path,
            decal_layer_index,
            sort_indices[k - 1],
            instances[k - 1],
        )
    }
}

/// Any number of instances pushed with one grouping tuple into an empty
/// storage form exactly one batch: it holds all of them in push order, and its
/// sort index is the first push's.
pub proof fn lemma_same_group_single_batch(
    data: SurfaceSharedData,
    material: SharedMaterial,
    render_path: RenderPath,
    decal_layer_index: u8,
    sort_indices: Seq<u64>,
    instances: Seq<InstanceModel>,
    k: int,
)
    requires
        0 < k <= instances.len(),
        sort_indices.len() == instances.len(),
        forall|i: int|
            0 <= i < instances.len() ==> instance_skinned(#[trigger] instances[i])
                == instance_skinned(instances[0]),
    ensures
        ({
            let fp = fingerprint_of(
                material.spec_key(),
                data.spec_key(),
                instance_skinned(instances[0]),
                decal_layer_index,
                render_path_id(render_path),
            );
            push_repeated(
                Seq::<BatchModel>::empty(),
                data,
                material,
                render_path,
                decal_layer_index,
                sort_indices,
                instances,
                k,
            ) == seq![
                BatchModel {
                    data,
                    material,
                    is_skinned: instance_skinned(instances[0]),
                    render_path,
                    decal_layer_index,
                    sort_index: sort_indices[0],
                    fingerprint: fp,
                    instances: instances.take(k),
                },
            ]
        }),
    decreases k,
{
    let fp = fingerprint_of(
        material.spec_key(),
        data.spec_key(),
        instance_skinned(instances[0]),
        decal_layer_index,
        render_path_id(render_path),
    );
    let empty = Seq::<BatchModel>::empty();
    let prev = push_repeated(
        empty,
        data,
        material,
        render_path,
        decal_layer_index,
        sort_indices,
        instances,
        k - 1,
    );
    let r = push_repeated(
        empty,
        data,
        material,
        render_path,
        decal_layer_index,
        sort_indices,
        instances,
        k,
    );
    if k == 1 {
        assert(prev == empty);
        assert(!has_batch(empty, fp));
        assert(r[0].instances =~= instances.take(1));
        assert(r =~= seq![
            BatchModel {
                data,
                material,
                is_skinned: instance_skinned(instances[0]),
                render_path,
                decal_layer_index,
                sort_index: sort_indices[0],
                fingerprint: fp,
                instances: instances.take(1),
            },
        ]);
    } else {
        lemma_same_group_single_batch(
            data,
            material,
            render_path,
            decal_layer_index,
            sort_indices,
            instances,
            k - 1,
        );
        assert(prev[0].fingerprint == fp);
        assert(has_batch(prev, fp));
        lemma_push_shape(
            prev,
            data,
            material,
            render_path,
            decal_layer_index,
            sort_indices[k - 1],
            instances[k - 1],
        );
        assert(batches_distinct(prev));
        assert(batch_index_of(prev, fp) == 0) by {
            let j = batch_index_of(prev, fp);
            assert(0 <= j < prev.len() && prev[j].fingerprint == fp);
        }
        assert(instance_skinned(instances[k - 1]) == instance_skinned(instances[0]));
        assert(r[0].instances =~= instances.take(k)) by {
            assert(r[0].instances == prev[0].instances.push(instances[k - 1]));
            assert(prev[0].instances == instances.take(k - 1));
        }
        assert(r =~= seq![
            BatchModel {
                data,
                material,
                is_skinned: instance_skinned(instances[0]),
                render_path,
                decal_layer_index,
                sort_index: sort_indices[0],
                fingerprint: fp,
                instances: instances.take(k),
            },
        ]);
    }
}

/// After `sort`, the batches are non-decreasing in sort index.
pub proof fn lemma_sort_nondecreasing(batches: Seq<BatchModel>)
    ensures
        sorted_by_sort_index(sort_spec(batches)),
{
    crate::batch::lemma_sort_spec(batches);
}

/// Building a storage twice from the same graph, observer, pass name and
/// frustum yields structurally equal batch lists: what `from_graph` returns
/// is a function of those inputs alone.
pub proof fn lemma_from_graph_deterministic<N: CollectRenderData>(
    first: &RenderDataBatchStorage,
    second: &RenderDataBatchStorage,
    graph: Seq<N>,
    observer_info: ObserverInfo,
    render_pass_name: Seq<char>,
    frustum: Option<Frustum>,
)
    requires
        first@ == spec_from_graph(graph, observer_info, render_pass_name, frustum),
        second@ == spec_from_graph(graph, observer_info, render_pass_name, frustum),
    ensures
        first@ == second@,
{
}

/// An empty graph yields an empty storage, and sorting an empty batch list is
/// a no-op.
pub proof fn lemma_empty_graph<N: CollectRenderData>(
    observer_info: ObserverInfo,
    render_pass_name: Seq<char>,
    frustum: Option<Frustum>,
)
    ensures
        spec_from_graph(Seq::<N>::empty(), observer_info, render_pass_name, frustum) == Seq::<
            BatchModel,
        >::empty(),
        sort_spec(Seq::<BatchModel>::empty()) == Seq::<BatchModel>::empty(),
{
}

/// A degenerate (non-invertible) projection-view product is no error: the pass
/// runs with the empty frustum, and the batches are exactly what the nodes
/// produce under it.
pub proof fn lemma_degenerate_frustum<N: CollectRenderData>(
    graph: Seq<N>,
    observer_info: ObserverInfo,
    render_pass_name: Seq<char>,
)
    ensures
        spec_from_graph(graph, observer_info, render_pass_name, None) == spec_from_graph(
            graph,
            observer_info,
            render_pass_name,
            Some(empty_frustum()),
        ),
{
}

} // verus!
