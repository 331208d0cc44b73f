//! The per-pass collection protocol: the observer description, the render
//! context handed to scene nodes, the node capability, and the driver that
//! builds a sorted batch storage from a graph.

use vstd::prelude::*;

use crate::batch::{sort_spec, BatchModel, RenderDataBatchStorage};
use crate::math::{empty_frustum, Frustum, Matrix4, Vector3};

verus! {

/// All the data describing an observer: a camera, a light source's virtual
/// camera used for shadow mapping, a reflection probe, and so on. Scalars are
/// raw 32-bit encodings; the core never computes with them.
#[derive(Clone, Copy, Debug, PartialEq, Eq, Structural)]
pub struct ObserverInfo {
    /// World-space position of the observer.
    pub observer_position: Vector3,
    /// Location of the near clipping plane.
    pub z_near: u32,
    /// Location of the far clipping plane.
    pub z_far: u32,
    /// View matrix of the observer.
    pub view_matrix: Matrix4,
    /// Projection matrix of the observer.
    pub projection_matrix: Matrix4,
}

/// A scene graph: nodes in the engine's deterministic linear order. The core
/// never interprets nodes; it only enumerates them.
pub struct Graph<N> {
    /// The nodes, in linear order.
    pub nodes: Vec<N>,
}

impl<N> View for Graph<N> {
    type V = Seq<N>;

    open spec fn view(&self) -> Seq<N> {
        self.nodes@
    }
}

impl<N> Graph<N> {
    /// Makes an empty graph.
    pub fn new() -> (r: Self)
        ensures
            r@ == Seq::<N>::empty(),
    {
        Graph { nodes: Vec::new() }
    }

    /// Appends a node at the end of the linear order.
    pub fn add_node(&mut self, node: N)
        ensures
            final(self)@ == old(self)@.push(node),
    {
        self.nodes.push(node);
    }

    /// How many nodes the graph holds.
    pub fn node_count(&self) -> (r: usize)
        ensures
            r == self@.len(),
    {
        self.nodes.len()
    }
}

/// The per-pass object handed to each scene node during collection: observer
/// data and frustum for culling, the graph for look-ups, the pass name, and
/// the batch storage the node pushes its surface instances into.
pub struct RenderContext<'a, N> {
    /// World-space position of the observer.
    pub observer_position: Vector3,
    /// Location of the near clipping plane.
    pub z_near: u32,
    /// Location of the far clipping plane.
    pub z_far: u32,
    /// View matrix of the observer.
    pub view_matrix: Matrix4,
    /// Projection matrix of the observer.
    pub projection_matrix: Matrix4,
    /// Frustum of the observer, derived from its view and projection matrices;
    /// scene nodes cull against it.
    pub frustum: Frustum,
    /// The batch storage a node writes at least one surface instance into for
    /// the node to be rendered.
    pub storage: RenderDataBatchStorage,
    /// The graph being rendered, for access to other scene nodes.
    pub graph: &'a Graph<N>,
    /// The name of the render pass this context was created for.
    pub render_pass_name: &'a str,
}

/// The mathematical value of a render context.
#[verifier::ext_equal]
pub struct ContextModel<N> {
    /// World-space position of the observer.
    pub observer_position: Vector3,
    /// Location of the near clipping plane.
    pub z_near: u32,
    /// Location of the far clipping plane.
    pub z_far: u32,
    /// View matrix of the observer.
    pub view_matrix: Matrix4,
    /// Projection matrix of the observer.
    pub projection_matrix: Matrix4,
    /// The frustum the nodes cull against.
    pub frustum: Frustum,
    /// The batches collected so far.
    pub batches: Seq<BatchModel>,
    /// The nodes of the graph, in linear order.
    pub graph: Seq<N>,
    /// The name of the render pass.
    pub render_pass_name: Seq<char>,
}

impl<'a, N> View for RenderContext<'a, N> {
    type V = ContextModel<N>;

    open spec fn view(&self) -> ContextModel<N> {
        ContextModel {
            observer_position: self.observer_position,
            z_near: self.z_near,
            z_far: self.z_far,
            view_matrix: self.view_matrix,
            projection_matrix: self.projection_matrix,
            frustum: self.frustum,
            batches: self.storage@,
            graph: self.graph@,
            render_pass_name: self.render_pass_name@,
        }
    }
}

/// The capability a scene node must offer to participate in rendering.
///
/// A node reads the observer data and the frustum from the context, culls on
/// its own side, and pushes zero or more surface instances into the context's
/// storage. What it leaves there must be a function of the node and of the
/// context's mathematical value alone — collection is deterministic — and the
/// rest of the context is left untouched.
pub trait CollectRenderData: Sized {
    /// The batches this node's collection leaves in the context's storage, as
    /// a function of the node and of the context it was given.
    spec fn spec_collect(&self, ctx: ContextModel<Self>) -> Seq<BatchModel>;

    /// Contributes this node's render data for the pass the context was made
    /// for.
    fn collect_render_data(&self, ctx: &mut RenderContext<'_, Self>)
        requires
            old(ctx).storage.wf(),
        ensures
            final(ctx).storage.wf(),
            final(ctx)@ == (ContextModel { batches: self.spec_collect(old(ctx)@), ..old(ctx)@ }),
    ;
}

/// The frustum a pass runs with: the given one, or the empty frustum where
/// deriving it failed (a degenerate projection-view product).
pub open spec fn frustum_or_default(frustum: Option<Frustum>) -> Frustum {
    match frustum {
        Some(f) => f,
        None => empty_frustum(),
    }
}

/// The context a pass starts with: observer data, the pass frustum, the graph,
/// the pass name, and no batches yet.
pub open spec fn initial_context<N>(
    graph: Seq<N>,
    observer_info: ObserverInfo,
    render_pass_name: Seq<char>,
    frustum: Frustum,
) -> ContextModel<N> {
    ContextModel {
        observer_position: observer_info.observer_position,
        z_near: observer_info.z_near,
        z_far: observer_info.z_far,
        view_matrix: observer_info.view_matrix,
        projection_matrix: observer_info.projection_matrix,
        frustum,
        batches: Seq::empty(),
        graph,
        render_pass_name,
    }
}

/// The batches in the storage after the first `k` nodes have collected, each
/// seeing the batches its predecessors left.
pub open spec fn batches_after<N: CollectRenderData>(
    ctx0: ContextModel<N>,
    k: int,
) -> Seq<BatchModel>
    decreases k,
{
    if k <= 0 {
        ctx0.batches
    } else {
        ctx0.graph[k - 1].spec_collect(
            ContextModel { batches: batches_after(ctx0, k - 1), ..ctx0 },
        )
    }
}

/// What a whole pass produces: every node collects in linear order, starting
/// from an empty storage, and the result is sorted by sort index. This is a
/// function of the graph, the observer, the pass name and the frustum alone,
/// so two passes over the same inputs yield equal batch lists.
pub open spec fn spec_from_graph<N: CollectRenderData>(
    graph: Seq<N>,
    observer_info: ObserverInfo,
    render_pass_name: Seq<char>,
    frustum: Option<Frustum>,
) -> Seq<BatchModel> {
    sort_spec(
        batches_after(
            initial_context(
                graph,
                observer_info,
                render_pass_name,
                frustum_or_default(frustum),
            ),
            graph.len() as int,
        ),
    )
}

impl RenderDataBatchStorage {
    /// Builds the batch storage for one pass: allocates with the node count as
    /// capacity hint, uses the given frustum (or the empty one where deriving
    /// it failed), asks every node in the graph's linear order to contribute
    /// render data, then sorts the batches by sort index.
    pub fn from_graph<N: CollectRenderData>(
        graph: &Graph<N>,
        observer_info: ObserverInfo,
        render_pass_name: &str,
        frustum: Option<Frustum>,
    ) -> (r: Self)
        ensures
            r.wf(),
            r@ == spec_from_graph(graph@, observer_info, render_pass_name@, frustum),
    {
        let capacity = graph.node_count();
        let storage = Self::new(capacity);
        let fr = match frustum {
            Some(f) => f,
            None => Frustum::default(),
        };
        let mut ctx = RenderContext {
            observer_position: observer_info.observer_position,
            z_near: observer_info.z_near,
            z_far: observer_info.z_far,
            view_matrix: observer_info.view_matrix,
            projection_matrix: observer_info.projection_matrix,
            frustum: fr,
            storage,
            graph,
            render_pass_name,
        };
        let ghost init = initial_context(
            graph@,
            observer_info,
            render_pass_name@,
            frustum_or_default(frustum),
        );
        proof {
            assert(ctx@ =~= (ContextModel { batches: batches_after(init, 0), ..init }));
        }
        let n = graph.node_count();
        let mut i: usize = 0;
        while i < n
            invariant
                0 <= i <= n,
                n == graph@.len(),
                init == initial_context(
                    graph@,
                    observer_info,
                    render_pass_name@,
                    frustum_or_default(frustum),
                ),
                ctx.storage.wf(),
                ctx@ == (ContextModel { batches: batches_after(init, i as int), ..init }),
            decreases n - i,
        {
            let ghost before = ctx@;
            let node = &graph.nodes[i];
            node.collect_render_data(&mut ctx);
            proof {
                assert(batches_after(init, i as int + 1) == init.graph[i as int].spec_collect(
                    ContextModel { batches: batches_after(init, i as int), ..init },
                ));
                assert(ctx@ =~= (ContextModel {
                    batches: batches_after(init, i as int + 1),
                    ..init
                }));
            }
            i += 1;
        }
        let mut storage = ctx.storage;
        proof {
            assert(storage@ == batches_after(init, graph@.len() as int));
        }
        storage.sort();
        storage
    }
}

} // verus!
