//! The pose conversion layer: maps each dimension-specific position and
//! rotation representation to the common transform fields (translation
//! vector, rotation quaternion) and back.
//!
//! A planar rotation becomes a quaternion by embedding it as the z-axis
//! block of a 3x3 rotation matrix and converting that matrix; the reverse
//! direction extracts the z-axis (yaw) component of the quaternion and
//! ignores any pitch or roll content, which is the documented fallback for
//! quaternions that are not pure z-axis rotations. Out-of-range scalars are
//! clamped rather than rejected.

use crate::math::{
    clamp64, isqrt, muldiv, qmul, spec_clamp, spec_isqrt, spec_muldiv, spec_qmul, Matrix3, Point2,
    Point3, Quaternion, Rotation2, Vector3, ONE,
};
use crate::transform::Transform;
use vstd::prelude::*;

verus! {

/// Conversion of a physics-native value into the representation the common
/// transform stores.
pub trait Convert {
    /// Output type of the conversion.
    type Output;

    /// Convert the value.
    fn convert(&self) -> Self::Output;
}

impl Convert for Point2 {
    type Output = Vector3;

    /// A planar point embeds into space with a zero third coordinate.
    fn convert(&self) -> (r: Vector3)
        ensures
            r == (Vector3 { x: self.x, y: self.y, z: 0 }),
    {
        Vector3 { x: self.x, y: self.y, z: 0 }
    }
}

impl Convert for Point3 {
    type Output = Vector3;

    /// A spatial point maps to the translation vector with the same
    /// coordinates.
    fn convert(&self) -> (r: Vector3)
        ensures
            r == (Vector3 { x: self.x, y: self.y, z: self.z }),
    {
        Vector3 { x: self.x, y: self.y, z: self.z }
    }
}

impl Convert for Quaternion {
    type Output = Quaternion;

    /// A spatial rotation is already in the common representation.
    fn convert(&self) -> (r: Quaternion)
        ensures
            r == *self,
    {
        *self
    }
}

impl Convert for Rotation2 {
    type Output = Quaternion;

    /// A planar rotation converts through the z-axis matrix embedding.
    fn convert(&self) -> (r: Quaternion)
        ensures
            r == spec_as_quat(*self),
            r.valid(),
    {
        as_quat(*self)
    }
}

/// A planar rotation with both scalars pushed into `[-ONE, ONE]`.
pub open spec fn spec_clamp_rotation2(r: Rotation2) -> Rotation2 {
    Rotation2 {
        c: spec_clamp(r.c as int, -ONE as int, ONE as int) as i64,
        s: spec_clamp(r.s as int, -ONE as int, ONE as int) as i64,
    }
}

/// The z-axis embedding of a planar rotation: the 2x2 rotation block in the
/// upper-left corner, zero padding elsewhere, and one in the z slot of the
/// diagonal.
pub open spec fn spec_embed_z(r: Rotation2) -> Matrix3 {
    Matrix3 {
        m00: r.c,
        m01: (-(r.s as int)) as i64,
        m02: 0,
        m10: r.s,
        m11: r.c,
        m12: 0,
        m20: 0,
        m21: 0,
        m22: ONE,
    }
}

/// Build the z-axis embedding of a (valid) planar rotation.
pub fn embed_z(r: Rotation2) -> (m: Matrix3)
    requires
        r.valid(),
    ensures
        m == spec_embed_z(r),
{
    Matrix3 {
        m00: r.c,
        m01: -r.s,
        m02: 0,
        m10: r.s,
        m11: r.c,
        m12: 0,
        m20: 0,
        m21: 0,
        m22: ONE,
    }
}

/// The quaternion of a rotation matrix, read from its planar block by the
/// half-angle formulas: the scalar part is `sqrt((1 + cos) / 2)` and the z
/// component `sin / (2 * scalar)`, with the half-turn handled separately.
/// Entries outside `[-ONE, ONE]` are clamped; rows and columns beyond the
/// planar block are ignored (yaw projection).
pub open spec fn spec_mat3_to_quat(m: Matrix3) -> Quaternion {
    let c = spec_clamp(m.m00 as int, -ONE as int, ONE as int);
    let s = spec_clamp(m.m10 as int, -ONE as int, ONE as int);
    let w = spec_isqrt((ONE + c) * ONE / 2);
    let z = if w > 0 {
        spec_clamp(spec_muldiv(s, ONE as int, 2 * w), -ONE as int, ONE as int)
    } else {
        ONE as int
    };
    Quaternion { s: w as i64, x: 0, y: 0, z: z as i64 }
}

/// Convert a rotation matrix to a quaternion.
pub fn mat3_to_quat(m: Matrix3) -> (r: Quaternion)
    ensures
        r == spec_mat3_to_quat(m),
        r.valid(),
{
    let c = clamp64(m.m00, -ONE, ONE);
    let s = clamp64(m.m10, -ONE, ONE);
    let base = (ONE + c) * ONE / 2;
    let w = isqrt(base);
    proof {
        assert((w as int) * w <= (ONE as int) * ONE ==> w <= ONE) by (nonlinear_arith);
        assert((w as int) * w <= base);
    }
    let z = if w > 0 {
        clamp64(muldiv(s, ONE, 2 * w), -ONE, ONE)
    } else {
        ONE
    };
    Quaternion { s: w, x: 0, y: 0, z }
}

/// The quaternion equivalent of a planar rotation, through the z-axis
/// matrix embedding.
pub open spec fn spec_as_quat(r: Rotation2) -> Quaternion {
    spec_mat3_to_quat(spec_embed_z(spec_clamp_rotation2(r)))
}

/// Convert a planar rotation to the equivalent quaternion.
pub fn as_quat(basis: Rotation2) -> (r: Quaternion)
    ensures
        r == spec_as_quat(basis),
        r.valid(),
{
    let cl = Rotation2 { c: clamp64(basis.c, -ONE, ONE), s: clamp64(basis.s, -ONE, ONE) };
    mat3_to_quat(embed_z(cl))
}

/// The planar rotation a quaternion induces about the z axis: cosine
/// `w*w + x*x - y*y - z*z` and sine `2*(w*z + x*y)` of the yaw angle, each
/// clamped into `[-ONE, ONE]`. For a pure z-axis rotation these are exactly
/// the double-angle formulas; pitch and roll content is projected away.
pub open spec fn spec_as_rotation2(q: Quaternion) -> Rotation2 {
    let qc = spec_clamp_quat(q);
    let c = spec_qmul(qc.s as int, qc.s as int) + spec_qmul(qc.x as int, qc.x as int) - spec_qmul(
        qc.y as int,
        qc.y as int,
    ) - spec_qmul(qc.z as int, qc.z as int);
    let s = 2 * (spec_qmul(qc.s as int, qc.z as int) + spec_qmul(qc.x as int, qc.y as int));
    Rotation2 {
        c: spec_clamp(c, -ONE as int, ONE as int) as i64,
        s: spec_clamp(s, -ONE as int, ONE as int) as i64,
    }
}

/// A quaternion with every component pushed into `[-ONE, ONE]`.
pub open spec fn spec_clamp_quat(q: Quaternion) -> Quaternion {
    Quaternion {
        s: spec_clamp(q.s as int, -ONE as int, ONE as int) as i64,
        x: spec_clamp(q.x as int, -ONE as int, ONE as int) as i64,
        y: spec_clamp(q.y as int, -ONE as int, ONE as int) as i64,
        z: spec_clamp(q.z as int, -ONE as int, ONE as int) as i64,
    }
}

/// Extract the planar (yaw) rotation of a quaternion.
pub fn as_rotation2(q: Quaternion) -> (r: Rotation2)
    ensures
        r == spec_as_rotation2(q),
        r.valid(),
{
    let ws = clamp64(q.s, -ONE, ONE);
    let xs = clamp64(q.x, -ONE, ONE);
    let ys = clamp64(q.y, -ONE, ONE);
    let zs = clamp64(q.z, -ONE, ONE);
    let c = qmul(ws, ws) + qmul(xs, xs) - qmul(ys, ys) - qmul(zs, zs);
    let s = 2 * (qmul(ws, zs) + qmul(xs, ys));
    Rotation2 { c: clamp64(c, -ONE, ONE), s: clamp64(s, -ONE, ONE) }
}

/// A physics-native planar pose: position and rotation, the source of truth
/// the conversion layer derives transforms from.
#[derive(Clone, Copy, PartialEq, Eq, Structural, Debug)]
pub struct BodyPose2 {
    /// Position of the body.
    pub position: Point2,
    /// Rotation of the body.
    pub rotation: Rotation2,
}

/// A physics-native spatial pose: position and rotation.
#[derive(Clone, Copy, PartialEq, Eq, Structural, Debug)]
pub struct BodyPose3 {
    /// Position of the body.
    pub position: Point3,
    /// Rotation of the body.
    pub rotation: Quaternion,
}

/// Derivation of the host transform from a physics-native pose.
pub trait AsTransform {
    /// The transform with this pose's position and rotation and unit scale.
    fn as_transform(&self) -> Transform;
}

impl AsTransform for BodyPose2 {
    /// The derived transform embeds the planar position with a zero third
    /// coordinate, converts the rotation through the matrix embedding, and
    /// has unit scale.
    fn as_transform(&self) -> (r: Transform)
        ensures
            r.translation == (Vector3 { x: self.position.x, y: self.position.y, z: 0 }),
            r.rotation == spec_as_quat(self.rotation),
            r.scale == (Vector3 { x: ONE, y: ONE, z: ONE }),
    {
        Transform {
            translation: self.position.convert(),
            rotation: self.rotation.convert(),
            scale: Vector3 { x: ONE, y: ONE, z: ONE },
        }
    }
}

impl AsTransform for BodyPose3 {
    /// The derived transform copies position and rotation and has unit
    /// scale.
    fn as_transform(&self) -> (r: Transform)
        ensures
            r.translation == (Vector3 { x: self.position.x, y: self.position.y, z: self.position.z }),
            r.rotation == self.rotation,
            r.scale == (Vector3 { x: ONE, y: ONE, z: ONE }),
    {
        Transform {
            translation: self.position.convert(),
            rotation: self.rotation.convert(),
            scale: Vector3 { x: ONE, y: ONE, z: ONE },
        }
    }
}

} // verus!
