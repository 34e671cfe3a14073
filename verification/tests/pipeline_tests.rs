use physics_pipeline::bundle::{
    BasicPhysicsBundle2, BasicPhysicsBundle3, BundleError, DispatcherBuilder, StageKind,
};
use physics_pipeline::channel::ReaderId;
use physics_pipeline::math::{Point3, Quaternion, Vector3, ONE};
use physics_pipeline::physics::{Dim, PhysicsWorld, PrimitiveKind, WorldError};
use physics_pipeline::sync::BodyPose3;

fn still_pose(x: i64, y: i64, z: i64) -> BodyPose3 {
    BodyPose3 {
        position: Point3 { x, y, z },
        rotation: Quaternion { s: ONE, x: 0, y: 0, z: 0 },
    }
}

fn zero() -> Vector3 {
    Vector3 { x: 0, y: 0, z: 0 }
}

#[test]
fn register_entity_errors() {
    let mut w = PhysicsWorld::new();
    assert!(w.register_entity(1, still_pose(0, 0, 0), zero(), 100_000).is_ok());
    // The same identifier cannot be granted physics capability twice.
    assert_eq!(
        w.register_entity(1, still_pose(5, 5, 5), zero(), 100_000),
        Err(WorldError::DuplicateEntity)
    );
    // A primitive must have a positive radius.
    assert_eq!(
        w.register_entity(2, still_pose(0, 0, 0), zero(), 0),
        Err(WorldError::OutOfRange)
    );
    // Coordinates beyond the coordinate range are refused.
    assert_eq!(
        w.register_entity(2, still_pose(600_000_000, 0, 0), zero(), 100_000),
        Err(WorldError::OutOfRange)
    );
    assert_eq!(w.entities.len(), 1);
}

#[test]
fn update_integrates_and_predictor_never_overwrites_pose() {
    let mut w = PhysicsWorld::new();
    let vel = Vector3 { x: ONE, y: 0, z: 0 };
    w.register_entity(1, still_pose(0, 0, 0), vel, 100_000).unwrap();
    w.register_entity(2, still_pose(5, 6, 7), zero(), 100_000).unwrap();

    w.current_frame_update(ONE);
    // One second at one unit per second moves one unit.
    assert_eq!(w.entities[0].pose.position, Point3 { x: ONE, y: 0, z: 0 });
    // An entity without velocity is left unchanged.
    assert_eq!(w.entities[1].pose.position, Point3 { x: 5, y: 6, z: 7 });

    w.next_frame_setup(ONE);
    // The predictor fills the separate next-frame slot...
    assert_eq!(w.entities[0].next_pose.position, Point3 { x: 2 * ONE, y: 0, z: 0 });
    // ...and never overwrites the current-frame pose.
    assert_eq!(w.entities[0].pose.position, Point3 { x: ONE, y: 0, z: 0 });
    // The bounding volume is recomputed from the predicted pose.
    assert_eq!(w.entities[0].bound.min.x, 2 * ONE - 100_000);
    assert_eq!(w.entities[0].bound.max.x, 2 * ONE + 100_000);
}

#[test]
fn no_event_for_pairs_whose_volumes_do_not_overlap() {
    let mut w = PhysicsWorld::new();
    let r = w.channel.register_reader();
    w.register_entity(1, still_pose(0, 0, 0), zero(), 100_000).unwrap();
    w.register_entity(2, still_pose(300_000_000, 0, 0), zero(), 100_000).unwrap();
    w.run_collision();
    assert_eq!(w.channel.events.len(), 0);
    assert_eq!(w.channel.read(r), Vec::new());
}

#[test]
fn broad_phase_false_positive_is_filtered_by_narrow_phase() {
    let mut w = PhysicsWorld::new();
    // Bounding boxes overlap on every axis, but the spheres stay apart:
    // distance^2 = 190_000^2 + 150_000^2 > (100_000 + 100_000)^2.
    w.register_entity(1, still_pose(0, 0, 0), zero(), 100_000).unwrap();
    w.register_entity(2, still_pose(190_000, 150_000, 0), zero(), 100_000).unwrap();
    w.run_collision();
    assert_eq!(w.channel.events.len(), 0);
}

#[test]
fn exactly_one_event_per_intersecting_pair() {
    let mut w = PhysicsWorld::new();
    w.register_entity(1, still_pose(0, 0, 0), zero(), 100_000).unwrap();
    w.register_entity(2, still_pose(150_000, 0, 0), zero(), 100_000).unwrap();
    w.register_entity(3, still_pose(-150_000, 0, 0), zero(), 100_000).unwrap();
    w.run_collision();
    // Pairs (1,2) and (1,3) intersect; (2,3) does not.
    assert_eq!(w.channel.events.len(), 2);
    assert_eq!((w.channel.events[0].a, w.channel.events[0].b), (1, 2));
    assert_eq!((w.channel.events[1].a, w.channel.events[1].b), (1, 3));
    assert_eq!(w.channel.events[0].depth, 50_000);
    assert_eq!(w.channel.events[0].normal, Vector3 { x: 150_000, y: 0, z: 0 });
    assert_eq!(w.channel.events[0].point, Vector3 { x: 75_000, y: 0, z: 0 });
    // Running another tick appends the same pairs again rather than
    // duplicating them within the first tick.
    w.run_collision();
    assert_eq!(w.channel.events.len(), 4);
}

#[test]
fn approaching_entity_produces_event_and_resolution_separates() {
    let mut w = PhysicsWorld::new();
    let r = w.channel.register_reader();
    // Entity 1 rests at the origin; entity 2 starts at the origin and moves.
    w.register_entity(1, still_pose(0, 0, 0), zero(), 100_000).unwrap();
    w.register_entity(2, still_pose(0, 0, 0), Vector3 { x: 50_000, y: 0, z: 0 }, 100_000)
        .unwrap();

    w.current_frame_update(ONE);
    w.next_frame_setup(ONE);
    w.run_collision();

    // The tick in which the predicted volumes overlap emits one event.
    assert_eq!(w.channel.events.len(), 1);
    let e = w.channel.events[0];
    assert_eq!((e.a, e.b), (1, 2));
    assert_eq!(e.depth, 100_000);

    w.contact_resolution(r);
    // Both poses were altered, in opposite directions.
    assert_eq!(w.entities[0].pose.position.x, -50_001);
    assert_eq!(w.entities[1].pose.position.x, 100_001);
    // The post-resolution primitives no longer overlap: the predicted
    // centers are at least the combined radii apart.
    let ax = w.entities[0].next_pose.position.x;
    let bx = w.entities[1].next_pose.position.x;
    assert!(bx - ax >= 200_000, "still penetrating: {} .. {}", ax, bx);
}

#[test]
fn destroyed_entity_event_is_discarded() {
    let mut w = PhysicsWorld::new();
    let r = w.channel.register_reader();
    w.register_entity(1, still_pose(0, 0, 0), zero(), 100_000).unwrap();
    w.register_entity(2, still_pose(100_000, 0, 0), zero(), 100_000).unwrap();
    w.run_collision();
    assert_eq!(w.channel.events.len(), 1);

    // Entity 2 dies between event emission and the drain.
    assert!(w.destroy_entity(2));
    let before = w.entities[0];
    w.contact_resolution(r);
    // The event was discarded: no panic, and the survivor's pose is
    // untouched by it.
    assert_eq!(w.entities[0], before);
    // The event was still consumed by this reader.
    assert_eq!(w.channel.read(r), Vec::new());
}

#[test]
fn bundle_registers_stages_in_dependency_order() {
    let mut w = PhysicsWorld::new();
    let d = DispatcherBuilder::new();
    let bundle = BasicPhysicsBundle2::new(PrimitiveKind::Circle);
    let d = bundle.build(&mut w, d).unwrap();
    assert_eq!(d.stages.len(), 4);
    assert_eq!(d.stages[0].kind, StageKind::CurrentFrameUpdate);
    assert_eq!(d.stages[0].dep, None);
    assert_eq!(d.stages[1].kind, StageKind::NextFrameSetup);
    assert_eq!(d.stages[1].dep, Some(StageKind::CurrentFrameUpdate));
    assert_eq!(d.stages[2].kind, StageKind::Collision);
    assert_eq!(d.stages[2].dep, Some(StageKind::NextFrameSetup));
    assert_eq!(d.stages[3].kind, StageKind::ContactResolution);
    assert_eq!(d.stages[3].dep, Some(StageKind::Collision));
    assert_eq!(d.stages[3].reader, Some(ReaderId { index: 0 }));
    assert_eq!(w.registrations.len(), 1);
    assert_eq!(w.registrations[0].dim, Dim::Two);
    assert_eq!(w.registrations[0].primitive, PrimitiveKind::Circle);
}

#[test]
fn duplicate_combination_fails_and_constructs_nothing() {
    let mut w = PhysicsWorld::new();
    let d = DispatcherBuilder::new();
    let d = BasicPhysicsBundle2::new(PrimitiveKind::Circle).build(&mut w, d).unwrap();
    // Registering the same (planar, circle) combination twice is a
    // configuration error and the pipeline is not constructed.
    let second = BasicPhysicsBundle2::new(PrimitiveKind::Circle).build(&mut w, d);
    assert_eq!(second.err(), Some(BundleError::DuplicateRegistration));
    assert_eq!(w.registrations.len(), 1);
    assert_eq!(w.channel.cursors.len(), 1);

    // A different combination still registers.
    let d2 = DispatcherBuilder::new();
    let d2 = BasicPhysicsBundle2::new(PrimitiveKind::Rectangle).build(&mut w, d2).unwrap();
    assert_eq!(d2.stages.len(), 4);
    assert_eq!(w.registrations.len(), 2);
}

#[test]
fn two_pipelines_have_independent_readers() {
    let mut w = PhysicsWorld::new();
    let d2 = BasicPhysicsBundle2::new(PrimitiveKind::Circle)
        .build(&mut w, DispatcherBuilder::new())
        .unwrap();
    let d3 = BasicPhysicsBundle3::new(PrimitiveKind::Sphere)
        .build(&mut w, DispatcherBuilder::new())
        .unwrap();
    let r2 = d2.stages[3].reader.unwrap();
    let r3 = d3.stages[3].reader.unwrap();
    assert_ne!(r2, r3);

    w.register_entity(1, still_pose(0, 0, 0), zero(), 100_000).unwrap();
    w.register_entity(2, still_pose(100_000, 0, 0), zero(), 100_000).unwrap();
    w.run_collision();

    // Each resolution stage drains its own cursor: the first drain does
    // not consume the second pipeline's view of the same events.
    w.contact_resolution(r2);
    assert_eq!(w.channel.read(r3).len(), 1);
}
