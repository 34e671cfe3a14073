//! The host-facing transform representation — translation, rotation and
//! scale — and the interpolation functions non-physics consumers use to
//! blend between two simulation steps.

use crate::math::{
    clamp64, lerp, lerp_vector3, spec_clamp, spec_lerp, Point2, Point3, Quaternion, Rotation2,
    Vector3, MAX_COORD, ONE,
};
use crate::sync::{as_quat, as_rotation2, spec_as_quat, spec_as_rotation2};
use vstd::prelude::*;

verus! {

/// The canonical pose representation used by downstream consumers:
/// translation vector, rotation quaternion and scale vector.
#[derive(Clone, Copy, PartialEq, Eq, Structural, Debug)]
pub struct Transform {
    /// Translation of the entity.
    pub translation: Vector3,
    /// Rotation of the entity.
    pub rotation: Quaternion,
    /// Per-axis scale of the entity.
    pub scale: Vector3,
}

/// The identity transform: zero translation, identity rotation, unit scale.
pub open spec fn spec_identity_transform() -> Transform {
    Transform {
        translation: Vector3 { x: 0, y: 0, z: 0 },
        rotation: Quaternion { s: ONE, x: 0, y: 0, z: 0 },
        scale: Vector3 { x: ONE, y: ONE, z: ONE },
    }
}

/// Componentwise linear blend of two vectors with a blend factor in
/// `[0, ONE]`.
pub open spec fn spec_lerp_vector3(a: Vector3, b: Vector3, t: int) -> Vector3 {
    Vector3 {
        x: spec_lerp(a.x as int, b.x as int, t) as i64,
        y: spec_lerp(a.y as int, b.y as int, t) as i64,
        z: spec_lerp(a.z as int, b.z as int, t) as i64,
    }
}

/// The componentwise negation of a rotation quaternion, which represents
/// the same rotation.
pub open spec fn spec_quat_neg(q: Quaternion) -> Quaternion {
    Quaternion {
        s: (-(q.s as int)) as i64,
        x: (-(q.x as int)) as i64,
        y: (-(q.y as int)) as i64,
        z: (-(q.z as int)) as i64,
    }
}

/// The four-component dot product of two quaternions; its sign tells which
/// of the two arcs between the rotations is shorter.
pub open spec fn spec_quat_dot(a: Quaternion, b: Quaternion) -> int {
    (a.s as int) * b.s + (a.x as int) * b.x + (a.y as int) * b.y + (a.z as int) * b.z
}

/// Rotation blend with a factor in `[0, ONE]`: the target is negated when
/// the dot product is negative, so the blend runs along the shorter arc,
/// and the components are then blended linearly. This is the fixed-point
/// counterpart of a shortest-arc spherical blend; it agrees with it exactly
/// at the endpoints.
pub open spec fn spec_quat_blend(a: Quaternion, b: Quaternion, t: int) -> Quaternion {
    let bb = if spec_quat_dot(a, b) < 0 {
        spec_quat_neg(b)
    } else {
        b
    };
    Quaternion {
        s: spec_lerp(a.s as int, bb.s as int, t) as i64,
        x: spec_lerp(a.x as int, bb.x as int, t) as i64,
        y: spec_lerp(a.y as int, bb.y as int, t) as i64,
        z: spec_lerp(a.z as int, bb.z as int, t) as i64,
    }
}

/// Full interpolation between two transforms: translation and scale blend
/// componentwise, the rotation blends along the shorter arc. Blend factors
/// outside `[0, ONE]` are clamped.
pub open spec fn spec_interpolate(a: Transform, b: Transform, amount: int) -> Transform {
    let t = spec_clamp(amount, 0, ONE as int);
    Transform {
        translation: spec_lerp_vector3(a.translation, b.translation, t),
        rotation: spec_quat_blend(a.rotation, b.rotation, t),
        scale: spec_lerp_vector3(a.scale, b.scale, t),
    }
}

/// Translation-only interpolation: rotation and scale are held fixed.
pub open spec fn spec_translation_interpolate(a: Transform, b: Transform, amount: int) -> Transform {
    let t = spec_clamp(amount, 0, ONE as int);
    Transform {
        translation: spec_lerp_vector3(a.translation, b.translation, t),
        rotation: a.rotation,
        scale: a.scale,
    }
}

impl Transform {
    /// A transform is well formed when translation and scale are in
    /// coordinate range and the rotation quaternion is valid.
    pub open spec fn wf(self) -> bool {
        &&& self.translation.bounded(MAX_COORD as int)
        &&& self.scale.bounded(MAX_COORD as int)
        &&& self.rotation.valid()
    }

    /// Build a transform from a spatial position and rotation; the scale is
    /// the unit scale.
    pub fn new(position: Point3, rotation: Quaternion) -> (r: Transform)
        ensures
            r.translation == (Vector3 { x: position.x, y: position.y, z: position.z }),
            r.rotation == rotation,
            r.scale == (Vector3 { x: ONE, y: ONE, z: ONE }),
    {
        Transform {
            translation: Vector3 { x: position.x, y: position.y, z: position.z },
            rotation,
            scale: Vector3 { x: ONE, y: ONE, z: ONE },
        }
    }

    /// Build a transform from a planar position and rotation; the position
    /// embeds with a zero third coordinate and the rotation converts
    /// through the z-axis matrix embedding.
    pub fn new_2d(position: Point2, rotation: Rotation2) -> (r: Transform)
        ensures
            r.translation == (Vector3 { x: position.x, y: position.y, z: 0 }),
            r.rotation == spec_as_quat(rotation),
            r.scale == (Vector3 { x: ONE, y: ONE, z: ONE }),
    {
        Transform {
            translation: Vector3 { x: position.x, y: position.y, z: 0 },
            rotation: as_quat(rotation),
            scale: Vector3 { x: ONE, y: ONE, z: ONE },
        }
    }

    /// Replace the rotation; translation and scale are untouched.
    pub fn set_rotation(&mut self, rotation: Quaternion)
        ensures
            final(self).rotation == rotation,
            final(self).translation == old(self).translation,
            final(self).scale == old(self).scale,
    {
        self.rotation = rotation;
    }

    /// Replace the rotation with the quaternion equivalent of a planar
    /// rotation; translation and scale are untouched.
    pub fn set_rotation_2d(&mut self, rotation: Rotation2)
        ensures
            final(self).rotation == spec_as_quat(rotation),
            final(self).translation == old(self).translation,
            final(self).scale == old(self).scale,
    {
        self.rotation = as_quat(rotation);
    }

    /// Replace the translation with a spatial position; rotation and scale
    /// are untouched.
    pub fn set_position(&mut self, position: Point3)
        ensures
            final(self).translation == (Vector3 { x: position.x, y: position.y, z: position.z }),
            final(self).rotation == old(self).rotation,
            final(self).scale == old(self).scale,
    {
        self.translation = Vector3 { x: position.x, y: position.y, z: position.z };
    }

    /// Replace the translation with an embedded planar position; rotation
    /// and scale are untouched.
    pub fn set_position_2d(&mut self, position: Point2)
        ensures
            final(self).translation == (Vector3 { x: position.x, y: position.y, z: 0 }),
            final(self).rotation == old(self).rotation,
            final(self).scale == old(self).scale,
    {
        self.translation = Vector3 { x: position.x, y: position.y, z: 0 };
    }

    /// The rotation as a quaternion.
    pub fn rotation(&self) -> (r: Quaternion)
        ensures
            r == self.rotation,
    {
        self.rotation
    }

    /// The rotation as a planar rotation (its yaw component).
    pub fn rotation_2d(&self) -> (r: Rotation2)
        ensures
            r == spec_as_rotation2(self.rotation),
            r.valid(),
    {
        as_rotation2(self.rotation)
    }

    /// The translation as a spatial position.
    pub fn position(&self) -> (r: Point3)
        ensures
            r == (Point3 { x: self.translation.x, y: self.translation.y, z: self.translation.z }),
    {
        Point3 { x: self.translation.x, y: self.translation.y, z: self.translation.z }
    }

    /// The translation as a planar position (its first two coordinates).
    pub fn position_2d(&self) -> (r: Point2)
        ensures
            r == (Point2 { x: self.translation.x, y: self.translation.y }),
    {
        Point2 { x: self.translation.x, y: self.translation.y }
    }

    /// Interpolate between `self` and `other`: translation and scale blend
    /// linearly, the rotation blends along the shorter arc. The blend
    /// factor counts millionths, so `0` is `self` and `ONE` is `other`;
    /// factors outside that range are clamped.
    pub fn interpolate(&self, other: &Transform, amount: i64) -> (r: Transform)
        requires
            self.wf(),
            other.wf(),
        ensures
            r == spec_interpolate(*self, *other, amount as int),
            r.wf(),
    {
        let t = clamp64(amount, 0, ONE);
        proof {
            assert forall|p: i64, q: i64|
                -ONE <= p <= ONE && -ONE <= q <= ONE implies -1_000_000_000_000
                <= #[trigger] ((p as int) * q) <= 1_000_000_000_000 by {
                assert(-1_000_000_000_000 <= (p as int) * q <= 1_000_000_000_000)
                    by (nonlinear_arith)
                    requires
                        -ONE <= p <= ONE,
                        -ONE <= q <= ONE,
                ;
            }
        }
        let dot = self.rotation.s * other.rotation.s + self.rotation.x * other.rotation.x
            + self.rotation.y * other.rotation.y + self.rotation.z * other.rotation.z;
        let target = if dot < 0 {
            Quaternion {
                s: -other.rotation.s,
                x: -other.rotation.x,
                y: -other.rotation.y,
                z: -other.rotation.z,
            }
        } else {
            other.rotation
        };
        let rotation = Quaternion {
            s: lerp(self.rotation.s, target.s, t),
            x: lerp(self.rotation.x, target.x, t),
            y: lerp(self.rotation.y, target.y, t),
            z: lerp(self.rotation.z, target.z, t),
        };
        Transform {
            translation: lerp_vector3(self.translation, other.translation, t),
            rotation,
            scale: lerp_vector3(self.scale, other.scale, t),
        }
    }

    /// Interpolate the translation only; rotation and scale are copied from
    /// `self`. Used for movement-only prediction smoothing.
    pub fn translation_interpolate(&self, other: &Transform, amount: i64) -> (r: Transform)
        requires
            self.wf(),
            other.wf(),
        ensures
            r == spec_translation_interpolate(*self, *other, amount as int),
            r.wf(),
            r.rotation == self.rotation,
            r.scale == self.scale,
    {
        let t = clamp64(amount, 0, ONE);
        Transform {
            translation: lerp_vector3(self.translation, other.translation, t),
            rotation: self.rotation,
            scale: self.scale,
        }
    }
}

impl Default for Transform {
    /// The default transform is the identity transform.
    fn default() -> (r: Transform)
        ensures
            r == spec_identity_transform(),
    {
        Transform {
            translation: Vector3 { x: 0, y: 0, z: 0 },
            rotation: Quaternion { s: ONE, x: 0, y: 0, z: 0 },
            scale: Vector3 { x: ONE, y: ONE, z: ONE },
        }
    }
}

/// A linear blend returns the first argument at factor zero and the second
/// at factor one.
pub proof fn lemma_lerp_endpoints(a: int, b: int)
    ensures
        spec_lerp(a, b, 0) == a,
        spec_lerp(a, b, ONE as int) == b,
{
    let d = b - a;
    if d >= 0 {
        vstd::arithmetic::div_mod::lemma_div_multiples_vanish(d, ONE as int);
    } else {
        vstd::arithmetic::div_mod::lemma_div_multiples_vanish(-d, ONE as int);
    }
}

/// Interpolating a transform with itself returns it unchanged, for every
/// blend factor in `[0, ONE]`.
pub proof fn lemma_interpolate_identity(t: Transform, x: int)
    requires
        t.wf(),
        0 <= x <= ONE,
    ensures
        spec_interpolate(t, t, x) == t,
{
    let q = t.rotation;
    assert(spec_quat_dot(q, q) >= 0) by (nonlinear_arith);
    assert(forall|a: int| spec_lerp(a, a, x) == a);
}

/// Interpolation returns the first transform at factor zero and the second
/// at factor one — the latter provided the two rotations already lie on the
/// same arc (non-negative dot product); otherwise the result at factor one
/// carries the negated target quaternion, which represents the same
/// rotation.
pub proof fn lemma_interpolate_endpoints(a: Transform, b: Transform)
    requires
        a.wf(),
        b.wf(),
    ensures
        spec_interpolate(a, b, 0) == a,
        spec_quat_dot(a.rotation, b.rotation) >= 0 ==> spec_interpolate(a, b, ONE as int) == b,
        spec_quat_dot(a.rotation, b.rotation) < 0 ==> spec_interpolate(a, b, ONE as int)
            == (Transform {
            translation: b.translation,
            rotation: spec_quat_neg(b.rotation),
            scale: b.scale,
        }),
{
    assert forall|p: int, q: int| #[trigger] spec_lerp(p, q, 0) == p && spec_lerp(p, q, ONE as int)
        == q by {
        lemma_lerp_endpoints(p, q);
    }
}

} // verus!
