use physics_pipeline::math::{
    clamp64, half64, isqrt, lerp, muldiv, qmul, Point2, Point3, Quaternion, Rotation2, Vector3,
    ONE,
};
use physics_pipeline::sync::{as_quat, as_rotation2, AsTransform, BodyPose2, BodyPose3, Convert};
use physics_pipeline::transform::Transform;

fn unit_scale() -> Vector3 {
    Vector3 { x: ONE, y: ONE, z: ONE }
}

fn identity_quat() -> Quaternion {
    Quaternion { s: ONE, x: 0, y: 0, z: 0 }
}

#[test]
fn scalar_helpers_exact_values() {
    assert_eq!(isqrt(0), 0);
    assert_eq!(isqrt(1), 1);
    assert_eq!(isqrt(2), 1);
    assert_eq!(isqrt(1_000_000_000_000), 1_000_000);
    assert_eq!(isqrt(999_999_999_999), 999_999);
    assert_eq!(lerp(0, 1_000_000, 250_000), 250_000);
    assert_eq!(lerp(-1_000_000, 1_000_000, 500_000), 0);
    assert_eq!(lerp(7, 7, 123_456), 7);
    assert_eq!(muldiv(-10, 3, 2), -15);
    assert_eq!(qmul(500_000, 500_000), 250_000);
    assert_eq!(qmul(-500_000, 500_000), -250_000);
    assert_eq!(half64(-5), -2);
    assert_eq!(half64(5), 2);
    assert_eq!(clamp64(2_000_000, -ONE, ONE), ONE);
}

#[test]
fn convert_point2_embeds_with_zero_z() {
    let p = Point2 { x: 3, y: 4 };
    assert_eq!(p.convert(), Vector3 { x: 3, y: 4, z: 0 });
}

#[test]
fn convert_point3_is_identity() {
    let p = Point3 { x: 3, y: -4, z: 5 };
    assert_eq!(p.convert(), Vector3 { x: 3, y: -4, z: 5 });
}

#[test]
fn convert_quaternion_is_identity() {
    let q = Quaternion { s: 600_000, x: 0, y: 0, z: 800_000 };
    assert_eq!(q.convert(), q);
}

#[test]
fn convert_identity_rotation_gives_identity_quaternion() {
    let r = Rotation2 { c: ONE, s: 0 };
    assert_eq!(as_quat(r), identity_quat());
    assert_eq!(r.convert(), identity_quat());
}

#[test]
fn convert_half_turn_gives_pure_z_quaternion() {
    let r = Rotation2 { c: -ONE, s: 0 };
    assert_eq!(as_quat(r), Quaternion { s: 0, x: 0, y: 0, z: ONE });
}

#[test]
fn rotation_round_trip_identity_and_half_turn_exact() {
    let id = Rotation2 { c: ONE, s: 0 };
    assert_eq!(as_rotation2(as_quat(id)), id);
    let half = Rotation2 { c: -ONE, s: 0 };
    assert_eq!(as_rotation2(as_quat(half)), half);
}

#[test]
fn rotation_round_trip_within_tolerance() {
    // A 3-4-5 rotation: cosine 0.6, sine 0.8, exactly on the unit circle.
    let r = Rotation2 { c: 600_000, s: 800_000 };
    let back = as_rotation2(as_quat(r));
    assert!((back.c - r.c).abs() <= 20, "cosine drifted: {}", back.c);
    assert!((back.s - r.s).abs() <= 20, "sine drifted: {}", back.s);

    let quarter = Rotation2 { c: 0, s: ONE };
    let back2 = as_rotation2(as_quat(quarter));
    assert!((back2.c - quarter.c).abs() <= 20, "cosine drifted: {}", back2.c);
    assert!((back2.s - quarter.s).abs() <= 20, "sine drifted: {}", back2.s);

    let neg = Rotation2 { c: 600_000, s: -800_000 };
    let back3 = as_rotation2(as_quat(neg));
    assert!((back3.c - neg.c).abs() <= 20, "cosine drifted: {}", back3.c);
    assert!((back3.s - neg.s).abs() <= 20, "sine drifted: {}", back3.s);
}

#[test]
fn body_pose_2d_as_transform() {
    let pose = BodyPose2 {
        position: Point2 { x: 10, y: -20 },
        rotation: Rotation2 { c: ONE, s: 0 },
    };
    let t = pose.as_transform();
    assert_eq!(t.translation, Vector3 { x: 10, y: -20, z: 0 });
    assert_eq!(t.rotation, identity_quat());
    assert_eq!(t.scale, unit_scale());
}

#[test]
fn body_pose_3d_as_transform() {
    let q = Quaternion { s: 600_000, x: 0, y: 0, z: 800_000 };
    let pose = BodyPose3 { position: Point3 { x: 1, y: 2, z: 3 }, rotation: q };
    let t = pose.as_transform();
    assert_eq!(t.translation, Vector3 { x: 1, y: 2, z: 3 });
    assert_eq!(t.rotation, q);
    assert_eq!(t.scale, unit_scale());
}

#[test]
fn transform_constructors_and_accessors() {
    let d = Transform::default();
    assert_eq!(d.translation, Vector3 { x: 0, y: 0, z: 0 });
    assert_eq!(d.rotation, identity_quat());
    assert_eq!(d.scale, unit_scale());

    let q = Quaternion { s: 0, x: 0, y: 0, z: ONE };
    let mut t = Transform::new(Point3 { x: 5, y: 6, z: 7 }, q);
    assert_eq!(t.translation, Vector3 { x: 5, y: 6, z: 7 });
    assert_eq!(t.rotation(), q);
    assert_eq!(t.position(), Point3 { x: 5, y: 6, z: 7 });
    assert_eq!(t.scale, unit_scale());

    t.set_position(Point3 { x: -1, y: -2, z: -3 });
    assert_eq!(t.position(), Point3 { x: -1, y: -2, z: -3 });
    assert_eq!(t.rotation(), q);
    t.set_rotation(identity_quat());
    assert_eq!(t.rotation(), identity_quat());
    assert_eq!(t.position(), Point3 { x: -1, y: -2, z: -3 });

    let t2 = Transform::new_2d(Point2 { x: 8, y: 9 }, Rotation2 { c: ONE, s: 0 });
    assert_eq!(t2.translation, Vector3 { x: 8, y: 9, z: 0 });
    assert_eq!(t2.rotation, identity_quat());
    assert_eq!(t2.position_2d(), Point2 { x: 8, y: 9 });
    let mut t3 = t2;
    t3.set_position_2d(Point2 { x: 1, y: 2 });
    assert_eq!(t3.translation, Vector3 { x: 1, y: 2, z: 0 });
    t3.set_rotation_2d(Rotation2 { c: -ONE, s: 0 });
    assert_eq!(t3.rotation, Quaternion { s: 0, x: 0, y: 0, z: ONE });
    assert_eq!(t3.rotation_2d(), Rotation2 { c: -ONE, s: 0 });
}

#[test]
fn interpolate_with_itself_returns_itself() {
    let t = Transform {
        translation: Vector3 { x: 1_000_000, y: -2_000_000, z: 3 },
        rotation: Quaternion { s: 600_000, x: 0, y: 0, z: 800_000 },
        scale: Vector3 { x: ONE, y: ONE, z: 2_000_000 },
    };
    let factors: Vec<i64> = vec![0, 1, 123_456, 500_000, 999_999, ONE];
    for x in factors {
        assert_eq!(t.interpolate(&t, x), t);
    }
}

#[test]
fn interpolate_endpoints_return_the_operands() {
    let a = Transform {
        translation: Vector3 { x: 0, y: 0, z: 0 },
        rotation: identity_quat(),
        scale: unit_scale(),
    };
    let b = Transform {
        translation: Vector3 { x: 1_000_000, y: 2_000_000, z: -3_000_000 },
        rotation: Quaternion { s: 600_000, x: 0, y: 0, z: 800_000 },
        scale: Vector3 { x: 2_000_000, y: ONE, z: ONE },
    };
    assert_eq!(a.interpolate(&b, 0), a);
    assert_eq!(a.interpolate(&b, ONE), b);
    // Factors outside [0, 1] clamp to the endpoints.
    assert_eq!(a.interpolate(&b, -5), a);
    assert_eq!(a.interpolate(&b, 2 * ONE), b);
}

#[test]
fn interpolate_blends_translation_linearly() {
    let a = Transform::default();
    let mut b = Transform::default();
    b.translation = Vector3 { x: 1_000_000, y: -1_000_000, z: 0 };
    let m = a.interpolate(&b, 250_000);
    assert_eq!(m.translation, Vector3 { x: 250_000, y: -250_000, z: 0 });
    assert_eq!(m.rotation, identity_quat());
    assert_eq!(m.scale, unit_scale());
}

#[test]
fn interpolate_takes_the_shorter_arc() {
    // The negated quaternion represents the same rotation; blending toward
    // it must not swing through the long way round.
    let a = Transform::default();
    let mut b = Transform::default();
    b.rotation = Quaternion { s: -ONE, x: 0, y: 0, z: 0 };
    let m = a.interpolate(&b, ONE);
    assert_eq!(m.rotation, identity_quat());
}

#[test]
fn translation_interpolate_holds_rotation_and_scale() {
    let a = Transform {
        translation: Vector3 { x: 0, y: 0, z: 0 },
        rotation: Quaternion { s: 600_000, x: 0, y: 0, z: 800_000 },
        scale: Vector3 { x: 2_000_000, y: ONE, z: ONE },
    };
    let mut b = a;
    b.translation = Vector3 { x: 1_000_000, y: 0, z: 500_000 };
    b.rotation = identity_quat();
    b.scale = unit_scale();
    let m = a.translation_interpolate(&b, 500_000);
    assert_eq!(m.translation, Vector3 { x: 500_000, y: 0, z: 250_000 });
    assert_eq!(m.rotation, a.rotation);
    assert_eq!(m.scale, a.scale);
    assert_eq!(a.translation_interpolate(&b, 0), a);
}
