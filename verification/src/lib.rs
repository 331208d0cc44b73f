//! A renderer batching core: walks a scene graph, collects per-surface draw
//! requests from each node, groups compatible requests into batches that share
//! GPU state, and emits a batch list ordered by sort index, ready for a draw
//! loop.
//!
//! The core never performs arithmetic on geometric data: positions, matrices
//! and plane coefficients are carried as raw 32-bit scalar encodings and handed
//! through unchanged. Frustum culling is the scene nodes' job; the host
//! derives the frustum planes from the observer matrices and hands them in.

pub mod batch;
pub mod context;
pub mod laws;
pub mod math;
pub mod node;
pub mod surface;

pub use math::{Frustum, Matrix4, Plane, Vector3, Vector4};
pub use surface::{
    ElementRange, InstanceModel, RenderPath, SharedMaterial, SurfaceInstanceData, SurfaceSharedData,
};
pub use batch::{BatchModel, RenderDataBatch, RenderDataBatchStorage};
pub use context::{CollectRenderData, ContextModel, Graph, ObserverInfo, RenderContext};
pub use node::{EmitterNode, PushRequest, RequestModel};
