//! A simple scene node: it owns a fixed list of draw requests and contributes
//! them all, or nothing when it culls and the pass frustum is empty.
//!
//! Real engines have richer nodes (meshes, terrains, particle systems); this
//! one both exercises the collection protocol end to end and shows what an
//! implementation of the node capability owes the driver.

use vstd::prelude::*;

use crate::batch::{spec_push, BatchModel};
use crate::context::{CollectRenderData, ContextModel, RenderContext};
use crate::surface::{InstanceModel, RenderPath, SharedMaterial, SurfaceInstanceData,
    SurfaceSharedData};

verus! {

/// One draw request a node hands to the storage: the grouping metadata, the
/// sort index, and the instance itself.
pub struct PushRequest {
    /// The shared surface data to draw with.
    pub data: SurfaceSharedData,
    /// The shared material to draw with.
    pub material: SharedMaterial,
    /// The render path of the request.
    pub render_path: RenderPath,
    /// The decal layer index of the request.
    pub decal_layer_index: u8,
    /// The sort index the batch gets if this request creates it.
    pub sort_index: u64,
    /// The surface instance to draw.
    pub instance: SurfaceInstanceData,
}

/// The mathematical value of a draw request.
#[verifier::ext_equal]
pub struct RequestModel {
    /// The shared surface data handle.
    pub data: SurfaceSharedData,
    /// The shared material handle.
    pub material: SharedMaterial,
    /// The render path of the request.
    pub render_path: RenderPath,
    /// The decal layer index of the request.
    pub decal_layer_index: u8,
    /// The sort index the batch gets if this request creates it.
    pub sort_index: u64,
    /// The surface instance to draw.
    pub instance: InstanceModel,
}

impl View for PushRequest {
    type V = RequestModel;

    open spec fn view(&self) -> RequestModel {
        RequestModel {
            data: self.data,
            material: self.material,
            render_path: self.render_path,
            decal_layer_index: self.decal_layer_index,
            sort_index: self.sort_index,
            instance: self.instance@,
        }
    }
}

/// The mathematical values of a list of draw requests.
pub open spec fn request_models(v: Seq<PushRequest>) -> Seq<RequestModel> {
    v.map_values(|r: PushRequest| r@)
}

/// One request pushed into a batch list.
pub open spec fn spec_push_request(batches: Seq<BatchModel>, req: RequestModel) -> Seq<
    BatchModel,
> {
    spec_push(
        batches,
        req.data,
        req.material,
        req.render_path,
        req.decal_layer_index,
        req.sort_index,
        req.instance,
    )
}

/// The first `k` requests pushed into a batch list, in order.
pub open spec fn push_first(
    batches: Seq<BatchModel>,
    reqs: Seq<RequestModel>,
    k: int,
) -> Seq<BatchModel>
    decreases k,
{
    if k <= 0 {
        batches
    } else {
        spec_push_request(push_first(batches, reqs, k - 1), reqs[k - 1])
    }
}

/// All requests pushed into a batch list, in order.
pub open spec fn push_all(batches: Seq<BatchModel>, reqs: Seq<RequestModel>) -> Seq<BatchModel> {
    push_first(batches, reqs, reqs.len() as int)
}

/// A node contributing a fixed list of draw requests.
pub struct EmitterNode {
    /// Whether the node culls against the pass frustum. An empty frustum
    /// contains nothing, so a culling node then emits nothing; the core gives
    /// it no finer visibility test, that is the host's geometry's business.
    pub cull: bool,
    /// The draw requests the node emits when visible.
    pub requests: Vec<PushRequest>,
}

impl CollectRenderData for EmitterNode {
    open spec fn spec_collect(&self, ctx: ContextModel<EmitterNode>) -> Seq<BatchModel> {
        if self.cull && ctx.frustum.spec_is_empty() {
            ctx.batches
        } else {
            push_all(ctx.batches, request_models(self.requests@))
        }
    }

    fn collect_render_data(&self, ctx: &mut RenderContext<'_, EmitterNode>) {
        if self.cull && ctx.frustum.is_empty() {
            proof {
                assert(ctx@ =~= (ContextModel {
                    batches: self.spec_collect(old(ctx)@),
                    ..old(ctx)@
                }));
            }
            return ;
        }
        let ghost b0 = ctx.storage@;
        let ghost reqs = request_models(self.requests@);
        let n = self.requests.len();
        let mut i: usize = 0;
        while i < n
            invariant
                0 <= i <= n,
                n == self.requests@.len(),
                reqs == request_models(self.requests@),
                ctx.storage.wf(),
                ctx.storage@ == push_first(b0, reqs, i as int),
                ctx.observer_position == old(ctx).observer_position,
                ctx.z_near == old(ctx).z_near,
                ctx.z_far == old(ctx).z_far,
                ctx.view_matrix == old(ctx).view_matrix,
                ctx.projection_matrix == old(ctx).projection_matrix,
                ctx.frustum == old(ctx).frustum,
                ctx.graph == old(ctx).graph,
                ctx.render_pass_name == old(ctx).render_pass_name,
                b0 == old(ctx).storage@,
            decreases n - i,
        {
            let req = &self.requests[i];
            let instance = req.instance.clone();
            ctx.storage.push(
                &req.data,
                &req.material,
                req.render_path,
                req.decal_layer_index,
                req.sort_index,
                instance,
            );
            proof {
                assert(reqs[i as int] == self.requests@[i as int]@);
                assert(ctx.storage@ == push_first(b0, reqs, i as int + 1));
            }
            i += 1;
        }
        proof {
            assert(ctx@ =~= (ContextModel { batches: self.spec_collect(old(ctx)@), ..old(ctx)@ }));
        }
    }
}

} // verus!
