//! The batch storage: groups surface instances into batches by a fingerprint
//! of their grouping tuple, and orders the batches by sort index.

use std::collections::HashMap;
use std::hash::Hasher;
use vstd::multiset::Multiset;
use vstd::prelude::*;

use crate::surface::{
    instance_skinned, render_path_id, InstanceModel, RenderPath, SharedMaterial,
    SurfaceInstanceData, SurfaceSharedData,
};

verus! {

/// The grouping fingerprint of a grouping tuple: material key, surface data
/// key, skinning flag, decal layer and render path id, digested in that order.
/// Two tuples with equal fingerprints share a batch; the (negligible) risk that
/// distinct tuples collide is accepted, so nothing is assumed here beyond the
/// fingerprint being a function of the tuple.
pub uninterp spec fn fingerprint_of(
    material_key: u64,
    data_key: u64,
    is_skinned: bool,
    decal_layer_index: u8,
    path_id: u32,
) -> u64;

/// Relies on fxhash::FxHasher: a zero-seeded, deterministic hasher whose
/// digest is a pure function of the sequence of written words (for a fixed
/// target word width), so the same grouping tuple gives the same fingerprint
/// in every run.
#[verifier::external_body]
fn compute_fingerprint(
    material_key: u64,
    data_key: u64,
    is_skinned: bool,
    decal_layer_index: u8,
    path_id: u32,
) -> (r: u64)
    ensures
        r == fingerprint_of(material_key, data_key, is_skinned, decal_layer_index, path_id),
{
    let mut hasher = fxhash::FxHasher::default();
    hasher.write_u64(material_key);
    hasher.write_u64(data_key);
    hasher.write_u8(if is_skinned {
        1
    } else {
        0
    });
    hasher.write_u8(decal_layer_index);
    hasher.write_u32(path_id);
    hasher.finish()
}

/// A set of surface instances that share the same vertex/index data, material,
/// skinning flag, render path and decal layer, drawable with one state setup.
#[derive(Debug)]
pub struct RenderDataBatch {
    /// The shared surface data all instances draw with.
    pub data: SurfaceSharedData,
    /// The instances of the batch, in the order they were pushed.
    pub instances: Vec<SurfaceInstanceData>,
    /// The material shared across all instances.
    pub material: SharedMaterial,
    /// Whether the batch uses GPU skinning.
    pub is_skinned: bool,
    /// The render path of the batch.
    pub render_path: RenderPath,
    /// The decal layer index of the batch.
    pub decal_layer_index: u8,
    /// The sort index of the batch: the one given by the push that created it.
    pub sort_index: u64,
    /// The grouping fingerprint the batch was created from.
    pub fingerprint: u64,
}

/// The mathematical value of a batch.
#[verifier::ext_equal]
pub struct BatchModel {
    /// The shared surface data handle.
    pub data: SurfaceSharedData,
    /// The shared material handle.
    pub material: SharedMaterial,
    /// Whether the batch uses GPU skinning.
    pub is_skinned: bool,
    /// The render path of the batch.
    pub render_path: RenderPath,
    /// The decal layer index of the batch.
    pub decal_layer_index: u8,
    /// The sort index of the batch.
    pub sort_index: u64,
    /// The grouping fingerprint the batch was created from.
    pub fingerprint: u64,
    /// The instances of the batch, in push order.
    pub instances: Seq<InstanceModel>,
}

impl View for RenderDataBatch {
    type V = BatchModel;

    open spec fn view(&self) -> BatchModel {
        BatchModel {
            data: self.data,
            material: self.material,
            is_skinned: self.is_skinned,
            render_path: self.render_path,
            decal_layer_index: self.decal_layer_index,
            sort_index: self.sort_index,
            fingerprint: self.fingerprint,
            instances: self.instances@.map_values(|inst: SurfaceInstanceData| inst@),
        }
    }
}

impl RenderDataBatch {
    /// How many instances the batch holds.
    pub fn instance_count(&self) -> (r: usize)
        ensures
            r == self@.instances.len(),
    {
        self.instances.len()
    }
}

/// The mathematical values of a list of batches.
pub open spec fn models_of(v: Seq<RenderDataBatch>) -> Seq<BatchModel> {
    v.map_values(|b: RenderDataBatch| b@)
}

/// Whether some batch carries the given fingerprint.
pub open spec fn has_batch(batches: Seq<BatchModel>, fp: u64) -> bool {
    exists|i: int| 0 <= i < batches.len() && (#[trigger] batches[i]).fingerprint == fp
}

/// The index of the batch carrying the given fingerprint; meaningful only
/// where `has_batch` holds and fingerprints are distinct.
pub open spec fn batch_index_of(batches: Seq<BatchModel>, fp: u64) -> int {
    choose|i: int| 0 <= i < batches.len() && (#[trigger] batches[i]).fingerprint == fp
}

/// No two batches carry the same fingerprint.
pub open spec fn batches_distinct(batches: Seq<BatchModel>) -> bool {
    forall|i: int, j: int|
        0 <= i < batches.len() && 0 <= j < batches.len() && i != j ==> (#[trigger] batches[i]).fingerprint
            != (#[trigger] batches[j]).fingerprint
}

/// Every batch holds at least one instance.
pub open spec fn batches_nonempty(batches: Seq<BatchModel>) -> bool {
    forall|i: int| 0 <= i < batches.len() ==> (#[trigger] batches[i]).instances.len() > 0
}

/// What one push does to the batch list: the instance joins the batch whose
/// fingerprint matches the grouping tuple's, and when there is none, a new
/// batch with this push's metadata (including its sort index) is appended,
/// holding just this instance.
pub open spec fn spec_push(
    batches: Seq<BatchModel>,
    data: SurfaceSharedData,
    material: SharedMaterial,
    render_path: RenderPath,
    decal_layer_index: u8,
    sort_index: u64,
    instance: InstanceModel,
) -> Seq<BatchModel> {
    let fp = fingerprint_of(
        material.spec_key(),
        data.spec_key(),
        instance_skinned(instance),
        decal_layer_index,
        render_path_id(render_path),
    );
    if has_batch(batches, fp) {
        let i = batch_index_of(batches, fp);
        batches.update(
            i,
            BatchModel { instances: batches[i].instances.push(instance), ..batches[i] },
        )
    } else {
        batches.push(
            BatchModel {
                data,
                material,
                is_skinned: instance_skinned(instance),
                render_path,
                decal_layer_index,
                sort_index,
                fingerprint: fp,
                instances: seq![instance],
            },
        )
    }
}

/// The index of the batch a push with this grouping tuple puts its instance
/// into: the batch already carrying the tuple's fingerprint, or the new batch
/// appended at the end.
pub open spec fn push_target(
    batches: Seq<BatchModel>,
    data: SurfaceSharedData,
    material: SharedMaterial,
    render_path: RenderPath,
    decal_layer_index: u8,
    instance: InstanceModel,
) -> int {
    let fp = fingerprint_of(
        material.spec_key(),
        data.spec_key(),
        instance_skinned(instance),
        decal_layer_index,
        render_path_id(render_path),
    );
    if has_batch(batches, fp) {
        batch_index_of(batches, fp)
    } else {
        batches.len() as int
    }
}

/// Every batch's skinning flag agrees with each of its instances: a batch is
/// skinned exactly when its instances carry bone matrices.
pub open spec fn skin_consistent(batches: Seq<BatchModel>) -> bool {
    forall|i: int, k: int|
        0 <= i < batches.len() && 0 <= k < (#[trigger] batches[i]).instances.len() ==> instance_skinned(
            #[trigger] batches[i].instances[k],
        ) == batches[i].is_skinned
}

/// The batches are in non-decreasing sort-index order.
pub open spec fn sorted_by_sort_index(s: Seq<BatchModel>) -> bool {
    forall|i: int, j: int|
        0 <= i <= j < s.len() ==> (#[trigger] s[i]).sort_index <= (#[trigger] s[j]).sort_index
}

/// Stable insertion of a batch into a list: the batch goes after every batch
/// whose sort index is not above its own.
pub open spec fn insert_sorted(b: BatchModel, s: Seq<BatchModel>) -> Seq<BatchModel>
    decreases s.len(),
{
    if s.len() == 0 {
        seq![b]
    } else if s[0].sort_index <= b.sort_index {
        seq![s[0]] + insert_sorted(b, s.drop_first())
    } else {
        seq![b] + s
    }
}

/// The stable sort of a batch list by sort index: each batch in turn is
/// inserted after the already placed batches whose sort index is not above its
/// own, so batches of equal sort index keep their relative order.
pub open spec fn sort_spec(s: Seq<BatchModel>) -> Seq<BatchModel>
    decreases s.len(),
{
    if s.len() == 0 {
        s
    } else {
        insert_sorted(s.last(), sort_spec(s.drop_last()))
    }
}

/// Where `insert_sorted` puts the new batch, given the boundary index `k`:
/// everything before `k` stays in front of it, everything from `k` on moves
/// behind it.
proof fn lemma_insert_sorted_split(b: BatchModel, s: Seq<BatchModel>, k: int)
    requires
        0 <= k <= s.len(),
        forall|m: int| 0 <= m < k ==> (#[trigger] s[m]).sort_index <= b.sort_index,
        forall|m: int| k <= m < s.len() ==> (#[trigger] s[m]).sort_index > b.sort_index,
    ensures
        insert_sorted(b, s) == s.take(k) + seq![b] + s.skip(k),
    decreases s.len(),
{
    if s.len() == 0 {
        assert(insert_sorted(b, s) =~= s.take(k) + seq![b] + s.skip(k));
    } else if s[0].sort_index <= b.sort_index {
        assert(k > 0) by {
            assert(s[0].sort_index <= b.sort_index);
        }
        lemma_insert_sorted_split(b, s.drop_first(), k - 1);
        assert(insert_sorted(b, s) =~= s.take(k) + seq![b] + s.skip(k));
    } else {
        assert(k == 0) by {
            if k > 0 {
                assert(s[0].sort_index <= b.sort_index);
            }
        }
        assert(insert_sorted(b, s) =~= s.take(k) + seq![b] + s.skip(k));
    }
}

/// In a sorted list there is a boundary index for any batch: sort indexes not
/// above the batch's own lie before it, larger ones after it.
proof fn lemma_split_pos(b: BatchModel, s: Seq<BatchModel>) -> (k: int)
    requires
        sorted_by_sort_index(s),
    ensures
        0 <= k <= s.len(),
        forall|m: int| 0 <= m < k ==> (#[trigger] s[m]).sort_index <= b.sort_index,
        forall|m: int| k <= m < s.len() ==> (#[trigger] s[m]).sort_index > b.sort_index,
    decreases s.len(),
{
    if s.len() == 0 {
        0
    } else if s[0].sort_index > b.sort_index {
        0
    } else {
        assert(sorted_by_sort_index(s.drop_first())) by {
            assert(forall|i: int, j: int|
                0 <= i <= j < s.drop_first().len() ==> (#[trigger] s.drop_first()[i]).sort_index
                    <= (#[trigger] s.drop_first()[j]).sort_index) by {
                assert(forall|i: int|
                    0 <= i < s.drop_first().len() ==> #[trigger] s.drop_first()[i] == s[i + 1]);
            }
        }
        let k0 = lemma_split_pos(b, s.drop_first());
        assert forall|m: int| 0 <= m < k0 + 1 implies (#[trigger] s[m]).sort_index
            <= b.sort_index by {
            if m > 0 {
                assert(s.drop_first()[m - 1] == s[m]);
            }
        }
        assert forall|m: int| k0 + 1 <= m < s.len() implies (#[trigger] s[m]).sort_index
            > b.sort_index by {
            assert(s.drop_first()[m - 1] == s[m]);
        }
        k0 + 1
    }
}

/// Inserting into a sorted list keeps it sorted and grows it by one.
pub proof fn lemma_insert_sorted_props(b: BatchModel, s: Seq<BatchModel>)
    requires
        sorted_by_sort_index(s),
    ensures
        insert_sorted(b, s).len() == s.len() + 1,
        sorted_by_sort_index(insert_sorted(b, s)),
{
    let k = lemma_split_pos(b, s);
    lemma_insert_sorted_split(b, s, k);
    let r = insert_sorted(b, s);
    assert forall|i: int, j: int| 0 <= i <= j < r.len() implies (#[trigger] r[i]).sort_index <= (
    #[trigger] r[j]).sort_index by {
        assert(forall|m: int| 0 <= m < k ==> r[m] == s[m]);
        assert(r[k] == b);
        assert(forall|m: int| k < m < r.len() ==> r[m] == s[m - 1]);
    }
}

/// What sorting does as a whole: the length is kept, the result is sorted,
/// exactly the same fingerprints (indeed the same batches, as a multiset) are
/// present, and distinctness of fingerprints and non-emptiness of batches
/// carry over.
pub proof fn lemma_sort_spec(s: Seq<BatchModel>)
    ensures
        sort_spec(s).len() == s.len(),
        sorted_by_sort_index(sort_spec(s)),
        forall|f: u64| has_batch(sort_spec(s), f) == has_batch(s, f),
        sort_spec(s).to_multiset() == s.to_multiset(),
        batches_distinct(s) ==> batches_distinct(sort_spec(s)),
        batches_nonempty(s) ==> batches_nonempty(sort_spec(s)),
    decreases s.len(),
{
    broadcast use vstd::seq_lib::group_to_multiset_ensures;

    if s.len() == 0 {
    } else {
        let front = s.drop_last();
        let b = s.last();
        lemma_sort_spec(front);
        let t = sort_spec(front);
        let k = lemma_split_pos(b, t);
        lemma_insert_sorted_split(b, t, k);
        lemma_insert_sorted_props(b, t);
        let r = sort_spec(s);
        assert(r == insert_sorted(b, t));
        assert(forall|m: int| 0 <= m < k ==> r[m] == t[m]);
        assert(r[k] == b);
        assert(forall|m: int| k < m < r.len() ==> r[m] == t[m - 1]);

        // every fingerprint of the result is b's or one of t's, and conversely
        assert forall|f: u64| has_batch(r, f) == has_batch(s, f) by {
            if has_batch(r, f) {
                let i = choose|i: int| 0 <= i < r.len() && (#[trigger] r[i]).fingerprint == f;
                if i == k {
                    assert(s[s.len() - 1].fingerprint == f);
                } else if i < k {
                    assert(has_batch(front, f));
                    let j = choose|j: int|
                        0 <= j < front.len() && (#[trigger] front[j]).fingerprint == f;
                    assert(s[j].fingerprint == f);
                } else {
                    assert(t[i - 1].fingerprint == f);
                    assert(has_batch(front, f));
                    let j = choose|j: int|
                        0 <= j < front.len() && (#[trigger] front[j]).fingerprint == f;
                    assert(s[j].fingerprint == f);
                }
            }
            if has_batch(s, f) {
                let i = choose|i: int| 0 <= i < s.len() && (#[trigger] s[i]).fingerprint == f;
                if i == s.len() - 1 {
                    assert(r[k].fingerprint == f);
                } else {
                    assert(front[i].fingerprint == f);
                    assert(has_batch(front, f));
                    assert(has_batch(t, f));
                    let j = choose|j: int| 0 <= j < t.len() && (#[trigger] t[j]).fingerprint == f;
                    if j < k {
                        assert(r[j].fingerprint == f);
                    } else {
                        assert(r[j + 1].fingerprint == f);
                    }
                }
            }
        }

        // the multiset of batches is unchanged
        assert(s =~= front.push(b));
        assert(s.to_multiset() == front.to_multiset().insert(b));
        assert(t =~= t.take(k) + t.skip(k));
        vstd::seq_lib::lemma_multiset_commutative(t.take(k), t.skip(k));
        vstd::seq_lib::lemma_multiset_commutative(t.take(k) + seq![b], t.skip(k));
        vstd::seq_lib::lemma_multiset_commutative(t.take(k), seq![b]);
        assert((t.take(k) + seq![b]) + t.skip(k) =~= t.take(k) + seq![b] + t.skip(k));
        assert(seq![b].to_multiset() =~= Multiset::<BatchModel>::empty().insert(b)) by {
            assert(seq![b] =~= Seq::<BatchModel>::empty().push(b));
            assert(Seq::<BatchModel>::empty().push(b).to_multiset() =~= Seq::<
                BatchModel,
            >::empty().to_multiset().insert(b));
        }
        assert(r.to_multiset() =~= s.to_multiset());

        // distinctness carries over
        if batches_distinct(s) {
            assert(batches_distinct(front)) by {
                assert(forall|i: int| 0 <= i < front.len() ==> #[trigger] front[i] == s[i]);
            }
            assert(!has_batch(front, b.fingerprint)) by {
                if has_batch(front, b.fingerprint) {
                    let j = choose|j: int|
                        0 <= j < front.len() && (#[trigger] front[j]).fingerprint == b.fingerprint;
                    assert(s[j].fingerprint == s[s.len() - 1].fingerprint);
                }
            }
            assert(!has_batch(t, b.fingerprint));
            assert forall|i: int, j: int|
                0 <= i < r.len() && 0 <= j < r.len() && i != j implies (#[trigger] r[i]).fingerprint
                != (#[trigger] r[j]).fingerprint by {
                if i != k && j != k {
                    let ti: int = if i < k {
                        i
                    } else {
                        i - 1
                    };
                    let tj: int = if j < k {
                        j
                    } else {
                        j - 1
                    };
                    assert(r[i] == t[ti] && r[j] == t[tj] && ti != tj);
                } else if i == k {
                    let tj: int = if j < k {
                        j
                    } else {
                        j - 1
                    };
                    assert(r[j] == t[tj]);
                    if r[j].fingerprint == b.fingerprint {
                        assert(has_batch(t, b.fingerprint));
                    }
                } else {
                    let ti: int = if i < k {
                        i
                    } else {
                        i - 1
                    };
                    assert(r[i] == t[ti]);
                    if r[i].fingerprint == b.fingerprint {
                        assert(has_batch(t, b.fingerprint));
                    }
                }
            }
        }

        // non-emptiness carries over
        if batches_nonempty(s) {
            assert(batches_nonempty(front)) by {
                assert(forall|i: int| 0 <= i < front.len() ==> #[trigger] front[i] == s[i]);
            }
            assert forall|i: int| 0 <= i < r.len() implies (#[trigger] r[i]).instances.len() > 0 by {
                if i < k {
                    assert(r[i] == t[i]);
                } else if i == k {
                    assert(r[i] == b);
                    assert(s[s.len() - 1].instances.len() > 0);
                } else {
                    assert(r[i] == t[i - 1]);
                }
            }
        }
    }
}

/// Sorting an already sorted list leaves it unchanged: each batch in turn goes
/// to the very end, behind all earlier batches.
pub proof fn lemma_sort_spec_of_sorted(s: Seq<BatchModel>)
    requires
        sorted_by_sort_index(s),
    ensures
        sort_spec(s) == s,
    decreases s.len(),
{
    if s.len() == 0 {
    } else {
        let front = s.drop_last();
        let b = s.last();
        assert(sorted_by_sort_index(front)) by {
            assert(forall|i: int| 0 <= i < front.len() ==> #[trigger] front[i] == s[i]);
        }
        lemma_sort_spec_of_sorted(front);
        lemma_insert_sorted_split(b, front, front.len() as int);
        assert(sort_spec(s) == front.take(front.len() as int) + seq![b] + front.skip(
            front.len() as int,
        ));
        assert(sort_spec(s) =~= s);
    }
}

/// Sorting twice is sorting once.
pub proof fn lemma_sort_idempotent(s: Seq<BatchModel>)
    ensures
        sort_spec(sort_spec(s)) == sort_spec(s),
{
    lemma_sort_spec(s);
    lemma_sort_spec_of_sorted(sort_spec(s));
}

/// Batch storage: maps each grouping fingerprint to its batch, and owns the
/// batch list handed to the draw loop.
#[derive(Debug)]
pub struct RenderDataBatchStorage {
    batch_map: HashMap<u64, usize>,
    /// The batches, in creation order until `sort` puts them in sort-index
    /// order.
    pub batches: Vec<RenderDataBatch>,
}

impl View for RenderDataBatchStorage {
    type V = Seq<BatchModel>;

    closed spec fn view(&self) -> Seq<BatchModel> {
        models_of(self.batches@)
    }
}

impl RenderDataBatchStorage {
    /// The fingerprint map agrees with the batch list: it maps the fingerprint
    /// of each batch to that batch's index, and nothing else.
    pub closed spec fn map_consistent(&self) -> bool {
        &&& forall|i: int|
            0 <= i < self.batches@.len() ==> {
                &&& self.batch_map@.contains_key((#[trigger] self.batches@[i]).fingerprint)
                &&& self.batch_map@[self.batches@[i].fingerprint] as int == i
            }
        &&& forall|k: u64|
            #[trigger] self.batch_map@.contains_key(k) ==> {
                &&& 0 <= self.batch_map@[k] < self.batches@.len()
                &&& self.batches@[self.batch_map@[k] as int].fingerprint == k
            }
    }

    /// Well-formedness: the fingerprint map agrees with the batch list,
    /// fingerprints are pairwise distinct, and no batch is empty.
    pub open spec fn wf(&self) -> bool {
        &&& self.map_consistent()
        &&& batches_distinct(self@)
        &&& batches_nonempty(self@)
    }

    /// Makes an empty storage. The capacity is a hint for the expected number
    /// of batches; it does not affect the result.
    pub fn new(capacity: usize) -> (r: Self)
        ensures
            r.wf(),
            r@ == Seq::<BatchModel>::empty(),
    {
        let r = RenderDataBatchStorage {
            batch_map: HashMap::with_capacity(capacity),
            batches: Vec::with_capacity(capacity),
        };
        proof {
            assert(r@ =~= Seq::<BatchModel>::empty());
        }
        r
    }

    /// How many batches the storage holds.
    pub fn batch_count(&self) -> (r: usize)
        ensures
            r == self@.len(),
    {
        self.batches.len()
    }

    /// Adds a surface instance. The instance joins the batch selected by the
    /// grouping fingerprint of (material, surface data, skinning flag, decal
    /// layer, render path); if no such batch exists yet, a new one is created
    /// with this call's metadata and sort index. A later push never changes an
    /// existing batch's sort index: the first writer wins.
    pub fn push(
        &mut self,
        data: &SurfaceSharedData,
        material: &SharedMaterial,
        render_path: RenderPath,
        decal_layer_index: u8,
        sort_index: u64,
        instance_data: SurfaceInstanceData,
    )
        requires
            old(self).wf(),
        ensures
            final(self).wf(),
            final(self)@ == spec_push(
                old(self)@,
                *data,
                *material,
                render_path,
                decal_layer_index,
                sort_index,
                instance_data@,
            ),
    {
        let ghost old_batches = self@;
        let is_skinned = instance_data.bone_matrices.len() > 0;
        let key = compute_fingerprint(
            material.key(),
            data.key(),
            is_skinned,
            decal_layer_index,
            render_path.as_u32(),
        );
        proof {
            assert(is_skinned == instance_skinned(instance_data@));
        }
        let existing = match self.batch_map.get(&key) {
            Some(i) => Some(*i),
            None => None,
        };
        match existing {
            Some(batch_index) => {
                proof {
                    assert(self.batch_map@.contains_key(key));
                    assert(self.batch_map@[key] == batch_index);
                    assert(0 <= batch_index < self.batches@.len());
                    assert(self.batches@[batch_index as int].fingerprint == key);
                    assert(old_batches[batch_index as int].fingerprint == key);
                    assert(has_batch(old_batches, key));
                    let j = batch_index_of(old_batches, key);
                    assert(0 <= j < old_batches.len() && old_batches[j].fingerprint == key);
                    assert(self.batch_map@[self.batches@[j].fingerprint] as int == j);
                    assert(j == batch_index as int);
                }
                let mut batch = self.batches.remove(batch_index);
                batch.instances.push(instance_data);
                self.batches.insert(batch_index, batch);
                proof {
                    let i = batch_index as int;
                    let updated = BatchModel {
                        instances: old_batches[i].instances.push(instance_data@),
                        ..old_batches[i]
                    };
                    assert(self.batches@[i]@ =~= updated);
                    assert(self.batches@ =~= old(self).batches@.update(i, self.batches@[i]));
                    assert(self@ =~= old_batches.update(i, updated));
                    assert(self@ == spec_push(
                        old_batches,
                        *data,
                        *material,
                        render_path,
                        decal_layer_index,
                        sort_index,
                        instance_data@,
                    ));
                    assert(self.wf());
                }
            },
            None => {
                proof {
                    assert(!self.batch_map@.contains_key(key));
                    assert(!has_batch(old_batches, key)) by {
                        if has_batch(old_batches, key) {
                            let j = choose|j: int|
                                0 <= j < old_batches.len() && (#[trigger] old_batches[j]).fingerprint
                                    == key;
                            assert(self.batch_map@.contains_key(
                                self.batches@[j].fingerprint,
                            ));
                        }
                    }
                }
                let batch_index = self.batches.len();
                self.batch_map.insert(key, batch_index);
                let mut instances = Vec::new();
                instances.push(instance_data);
                self.batches.push(
                    RenderDataBatch {
                        data: *data,
                        material: *material,
                        is_skinned,
                        render_path,
                        decal_layer_index,
                        sort_index,
                        fingerprint: key,
                        instances,
                    },
                );
                proof {
                    let created = BatchModel {
                        data: *data,
                        material: *material,
                        is_skinned: instance_skinned(instance_data@),
                        render_path,
                        decal_layer_index,
                        sort_index,
                        fingerprint: key,
                        instances: seq![instance_data@],
                    };
                    assert(self.batches@[batch_index as int]@ =~= created);
                    assert(self@ =~= old_batches.push(created));
                    assert(self@ == spec_push(
                        old_batches,
                        *data,
                        *material,
                        render_path,
                        decal_layer_index,
                        sort_index,
                        instance_data@,
                    ));
                    assert forall|i: int| 0 <= i < self.batches@.len() implies {
                        &&& self.batch_map@.contains_key(
                            (#[trigger] self.batches@[i]).fingerprint,
                        )
                        &&& self.batch_map@[self.batches@[i].fingerprint] as int == i
                    } by {
                        if i < batch_index as int {
                            assert(old(self).batch_map@.contains_key(
                                old(self).batches@[i].fingerprint,
                            ));
                            assert(old_batches[i].fingerprint != key);
                        }
                    }
                    assert(self.wf());
                }
            },
        }
    }

    /// Orders the batches by sort index, ascending. Within a batch, the
    /// instance order is untouched; batches of equal sort index keep their
    /// relative order. The fingerprint map is rebuilt to keep agreeing with
    /// the reordered batch list.
    pub fn sort(&mut self)
        requires
            old(self).wf(),
        ensures
            final(self).wf(),
            final(self)@ == sort_spec(old(self)@),
    {
        let ghost orig = self@;
        proof {
            lemma_sort_spec(orig);
        }
        let n = self.batches.len();
        let mut placed: Vec<RenderDataBatch> = Vec::with_capacity(n);
        let ghost mut k: int = 0;
        proof {
            assert(models_of(placed@) =~= sort_spec(orig.take(0)));
            assert(models_of(self.batches@) =~= orig.skip(0));
        }
        while self.batches.len() > 0
            invariant
                0 <= k <= orig.len(),
                models_of(placed@) == sort_spec(orig.take(k)),
                models_of(self.batches@) == orig.skip(k),
                sorted_by_sort_index(models_of(placed@)),
            decreases self.batches@.len(),
        {
            let ghost placed_before = models_of(placed@);
            let ghost remaining = models_of(self.batches@);
            let ghost pre = self.batches@;
            let b = self.batches.remove(0);
            proof {
                assert(remaining == orig.skip(k));
                assert(remaining.len() > 0);
                assert(b@ == remaining[0]);
                assert(orig.skip(k)[0] == orig[k]);
                assert(b@ == orig[k]);
                assert forall|m: int| 0 <= m < self.batches@.len() implies (
                #[trigger] self.batches@[m])@ == orig.skip(k + 1)[m] by {
                    assert(self.batches@[m] == pre[m + 1]);
                    assert(pre[m + 1]@ == remaining[m + 1]);
                }
                assert(models_of(self.batches@) =~= orig.skip(k + 1));
            }
            let mut j = placed.len();
            while j > 0 && placed[j - 1].sort_index > b.sort_index
                invariant
                    0 <= j <= placed@.len(),
                    forall|m: int|
                        j <= m < placed@.len() ==> (#[trigger] placed@[m]).sort_index
                            > b.sort_index,
                decreases j,
            {
                j -= 1;
            }
            proof {
                assert forall|m: int| 0 <= m < j implies (#[trigger] placed_before[m]).sort_index
                    <= b@.sort_index by {
                    assert(placed_before[j - 1] == placed@[j - 1]@);
                    assert(placed@[j - 1].sort_index <= b.sort_index);
                    assert(placed_before[m].sort_index <= placed_before[j - 1].sort_index);
                }
                assert forall|m: int|
                    j <= m < placed_before.len() implies (#[trigger] placed_before[m]).sort_index
                    > b@.sort_index by {
                    assert(placed_before[m] == placed@[m]@);
                }
            }
            placed.insert(j, b);
            proof {
                assert(models_of(placed@) =~= placed_before.take(
                    j as int,
                ) + seq![b@] + placed_before.skip(j as int));
                lemma_insert_sorted_split(b@, placed_before, j as int);
                lemma_insert_sorted_props(b@, placed_before);
                assert(orig.take(k + 1).drop_last() =~= orig.take(k));
                assert(orig.take(k + 1).last() == orig[k]);
                assert(models_of(placed@) == sort_spec(orig.take(k + 1)));
                k = k + 1;
            }
        }
        proof {
            assert(orig.take(k) =~= orig);
        }
        self.batches = placed;

        // rebuild the fingerprint map for the new batch order
        self.batch_map.clear();
        let ghost fb = self.batches@;
        let mut i: usize = 0;
        while i < self.batches.len()
            invariant
                0 <= i <= fb.len(),
                self.batches@ == fb,
                models_of(fb) == sort_spec(orig),
                batches_distinct(sort_spec(orig)),
                forall|m: int|
                    0 <= m < i ==> {
                        &&& self.batch_map@.contains_key((#[trigger] fb[m]).fingerprint)
                        &&& self.batch_map@[fb[m].fingerprint] as int == m
                    },
                forall|f: u64|
                    #[trigger] self.batch_map@.contains_key(f) ==> exists|m: int|
                        0 <= m < i && (#[trigger] fb[m]).fingerprint == f,
            decreases fb.len() - i,
        {
            let fp = self.batches[i].fingerprint;
            self.batch_map.insert(fp, i);
            proof {
                assert forall|m: int| 0 <= m < i + 1 implies {
                    &&& self.batch_map@.contains_key((#[trigger] fb[m]).fingerprint)
                    &&& self.batch_map@[fb[m].fingerprint] as int == m
                } by {
                    if m < i as int {
                        let models = models_of(fb);
                        assert(models[m].fingerprint != models[i as int].fingerprint);
                        assert(fb[m].fingerprint != fb[i as int].fingerprint);
                    }
                }
            }
            i += 1;
        }
        proof {
            assert(self.wf());
        }
    }
}

impl Default for RenderDataBatchStorage {
    /// The default storage is empty.
    fn default() -> (r: Self)
        ensures
            r.wf(),
            r@ == Seq::<BatchModel>::empty(),
    {
        Self::new(0)
    }
}

} // verus!
