//! Geometric value carriers.
//!
//! The batching core stores observer positions, transforms and frustum planes
//! only to hand them to scene nodes; it never computes with them. Every scalar
//! is therefore kept as its raw 32-bit encoding (`u32`), and the host converts
//! to and from its native scalar type at the boundary.

use vstd::prelude::*;

verus! {

/// A three-component vector of raw 32-bit scalar encodings.
#[derive(Clone, Copy, Debug, PartialEq, Eq, Structural)]
pub struct Vector3 {
    pub x: u32,
    pub y: u32,
    pub z: u32,
}

/// A four-component vector of raw 32-bit scalar encodings.
#[derive(Clone, Copy, Debug, PartialEq, Eq, Structural)]
pub struct Vector4 {
    pub x: u32,
    pub y: u32,
    pub z: u32,
    pub w: u32,
}

/// A 4x4 matrix of raw 32-bit scalar encodings, stored as four rows.
#[derive(Clone, Copy, Debug, PartialEq, Eq, Structural)]
pub struct Matrix4 {
    pub r0: Vector4,
    pub r1: Vector4,
    pub r2: Vector4,
    pub r3: Vector4,
}

impl Matrix4 {
    /// The all-zero matrix.
    pub fn zero() -> (r: Matrix4)
        ensures
            r == Matrix4::spec_zero(),
    {
        let row = Vector4 { x: 0, y: 0, z: 0, w: 0 };
        Matrix4 { r0: row, r1: row, r2: row, r3: row }
    }

    /// The all-zero matrix, as a specification value.
    pub open spec fn spec_zero() -> Matrix4 {
        let row = Vector4 { x: 0, y: 0, z: 0, w: 0 };
        Matrix4 { r0: row, r1: row, r2: row, r3: row }
    }
}

/// One frustum plane: a normal and a distance, as raw scalar encodings.
#[derive(Clone, Copy, Debug, PartialEq, Eq, Structural)]
pub struct Plane {
    pub normal: Vector3,
    pub d: u32,
}

/// The six-plane view volume of an observer, used by scene nodes for culling.
///
/// The planes are derived by the host from the product of the observer's
/// projection and view matrices; when that product is degenerate the empty
/// frustum stands in, and a culling node treats everything as out of view.
#[derive(Clone, Copy, Debug, PartialEq, Eq, Structural)]
pub struct Frustum {
    pub left: Plane,
    pub right: Plane,
    pub bottom: Plane,
    pub top: Plane,
    pub near: Plane,
    pub far: Plane,
}

/// The empty frustum: all planes zero. It contains nothing, so a node that
/// culls against it emits no instances.
pub open spec fn empty_frustum() -> Frustum {
    let zero = Plane { normal: Vector3 { x: 0, y: 0, z: 0 }, d: 0 };
    Frustum { left: zero, right: zero, bottom: zero, top: zero, near: zero, far: zero }
}

impl Frustum {
    /// Whether this is the empty frustum.
    pub open spec fn spec_is_empty(&self) -> bool {
        *self == empty_frustum()
    }

    /// Whether this is the empty frustum.
    pub fn is_empty(&self) -> (r: bool)
        ensures
            r == self.spec_is_empty(),
    {
        let zero = Plane { normal: Vector3 { x: 0, y: 0, z: 0 }, d: 0 };
        *self == (Frustum {
            left: zero,
            right: zero,
            bottom: zero,
            top: zero,
            near: zero,
            far: zero,
        })
    }
}

impl Default for Frustum {
    /// The default frustum is the empty one.
    fn default() -> (r: Frustum)
        ensures
            r == empty_frustum(),
    {
        let zero = Plane { normal: Vector3 { x: 0, y: 0, z: 0 }, d: 0 };
        Frustum { left: zero, right: zero, bottom: zero, top: zero, near: zero, far: zero }
    }
}

} // verus!
