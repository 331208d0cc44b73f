//! Surface-level inputs to the batching core: shared handles, the render path,
//! the element range, and the per-draw surface instance data.

use vstd::prelude::*;

use crate::math::Matrix4;

verus! {

/// A handle to shared vertex/index data. The core reads nothing of the data
/// itself; a handle is identified by its stable 64-bit key.
#[derive(Clone, Copy, Debug, PartialEq, Eq, Structural)]
pub struct SurfaceSharedData {
    key: u64,
}

impl SurfaceSharedData {
    /// The handle's stable identity.
    pub closed spec fn spec_key(&self) -> u64 {
        self.key
    }

    /// Makes a handle with the given stable key.
    pub fn new(key: u64) -> (r: SurfaceSharedData)
        ensures
            r.spec_key() == key,
    {
        SurfaceSharedData { key }
    }

    /// The handle's stable identity.
    pub fn key(&self) -> (r: u64)
        ensures
            r == self.spec_key(),
    {
        self.key
    }
}

/// A handle to a shared material, identified by its stable 64-bit key.
#[derive(Clone, Copy, Debug, PartialEq, Eq, Structural)]
pub struct SharedMaterial {
    key: u64,
}

impl SharedMaterial {
    /// The handle's stable identity.
    pub closed spec fn spec_key(&self) -> u64 {
        self.key
    }

    /// Makes a handle with the given stable key.
    pub fn new(key: u64) -> (r: SharedMaterial)
        ensures
            r.spec_key() == key,
    {
        SharedMaterial { key }
    }

    /// The handle's stable identity.
    pub fn key(&self) -> (r: u64)
        ensures
            r == self.spec_key(),
    {
        self.key
    }
}

/// The shading strategy a batch participates in. It is part of the grouping
/// key: batches on different paths need different shader variants.
#[derive(Clone, Copy, Debug, PartialEq, Eq, Structural)]
pub enum RenderPath {
    /// Forward shading.
    Forward,
    /// Deferred shading.
    Deferred,
}

/// The integer a render path contributes to the grouping fingerprint.
pub open spec fn render_path_id(p: RenderPath) -> u32 {
    match p {
        RenderPath::Forward => 0,
        RenderPath::Deferred => 1,
    }
}

impl RenderPath {
    /// The integer this path contributes to the grouping fingerprint.
    pub fn as_u32(&self) -> (r: u32)
        ensures
            r == render_path_id(*self),
    {
        match self {
            RenderPath::Forward => 0,
            RenderPath::Deferred => 1,
        }
    }
}

/// Which graphics elements of a surface an instance draws: the whole surface,
/// or a contiguous sub-range of it.
#[derive(Clone, Copy, Debug, PartialEq, Eq, Structural)]
pub enum ElementRange {
    /// The surface's full element range.
    Full,
    /// A contiguous sub-range of elements.
    Specific {
        /// First element of the sub-range.
        start: usize,
        /// Number of elements in the sub-range.
        count: usize,
    },
}

/// One draw request for a surface.
#[derive(Debug)]
pub struct SurfaceInstanceData {
    /// The world transform of the instance.
    pub world_transform: Matrix4,
    /// The bone matrix palette; empty when the instance is not skinned.
    pub bone_matrices: Vec<Matrix4>,
    /// A depth-bias scalar, carried as its raw 32-bit encoding.
    pub depth_offset: u32,
    /// One weight per blend shape, each carried as its raw 32-bit encoding.
    pub blend_shapes_weights: Vec<u32>,
    /// Which elements of the surface this instance draws.
    pub element_range: ElementRange,
}

/// The mathematical value of a surface instance.
#[verifier::ext_equal]
pub struct InstanceModel {
    /// The world transform of the instance.
    pub world_transform: Matrix4,
    /// The bone matrix palette; empty when the instance is not skinned.
    pub bone_matrices: Seq<Matrix4>,
    /// The depth-bias scalar encoding.
    pub depth_offset: u32,
    /// The blend shape weight encodings.
    pub blend_shapes_weights: Seq<u32>,
    /// Which elements of the surface this instance draws.
    pub element_range: ElementRange,
}

impl View for SurfaceInstanceData {
    type V = InstanceModel;

    open spec fn view(&self) -> InstanceModel {
        InstanceModel {
            world_transform: self.world_transform,
            bone_matrices: self.bone_matrices@,
            depth_offset: self.depth_offset,
            blend_shapes_weights: self.blend_shapes_weights@,
            element_range: self.element_range,
        }
    }
}

/// Whether an instance asks for GPU skinning: true exactly when it carries
/// bone matrices.
pub open spec fn instance_skinned(inst: InstanceModel) -> bool {
    inst.bone_matrices.len() > 0
}

impl Clone for SurfaceInstanceData {
    /// A clone carries the same mathematical value.
    fn clone(&self) -> (r: Self)
        ensures
            r@ == self@,
    {
        let bone_matrices = self.bone_matrices.clone();
        let blend_shapes_weights = self.blend_shapes_weights.clone();
        proof {
            assert(bone_matrices@ =~= self.bone_matrices@);
            assert(blend_shapes_weights@ =~= self.blend_shapes_weights@);
        }
        SurfaceInstanceData {
            world_transform: self.world_transform,
            bone_matrices,
            depth_offset: self.depth_offset,
            blend_shapes_weights,
            element_range: self.element_range,
        }
    }
}

} // verus!
