//! The per-frame physics stages and the state they share: collidable
//! entities with their poses, velocities, collision primitives and cached
//! bounding volumes, plus the contact-event channel.
//!
//! The stages run in a fixed order within one tick: the frame state updater
//! integrates every pose forward, the next-frame predictor fills the
//! predicted pose slot, collision detection emits one contact event per
//! intersecting pair, and contact resolution drains its reader cursor and
//! pushes intersecting pairs apart.

use crate::channel::{EventChannel, ReaderId};
use crate::math::{
    clamp64, half64, isqrt, muldiv, spec_clamp, spec_half, spec_isqrt, spec_muldiv, Point3,
    Vector3, MAX_COORD, MAX_RADIUS, ONE,
};
use crate::sync::BodyPose3;
use vstd::prelude::*;

verus! {

/// The kinds of collision primitive a storage schema can be registered
/// for.
#[derive(Clone, Copy, PartialEq, Eq, Structural, Debug)]
pub enum PrimitiveKind {
    /// A planar circle.
    Circle,
    /// A planar rectangle.
    Rectangle,
    /// A spatial sphere.
    Sphere,
    /// A spatial box.
    Cuboid,
}

/// Dimensionality of a pipeline variant.
#[derive(Clone, Copy, PartialEq, Eq, Structural, Debug)]
pub enum Dim {
    /// Planar physics.
    Two,
    /// Spatial physics.
    Three,
}

/// One registered storage-schema combination: dimensionality and collision
/// primitive.
#[derive(Clone, Copy, PartialEq, Eq, Structural, Debug)]
pub struct Registration {
    /// Dimensionality of the combination.
    pub dim: Dim,
    /// Collision primitive of the combination.
    pub primitive: PrimitiveKind,
}

/// An axis-aligned box, the cached bounding volume of a collidable entity.
#[derive(Clone, Copy, PartialEq, Eq, Structural, Debug)]
pub struct Aabb {
    /// Componentwise lower corner.
    pub min: Vector3,
    /// Componentwise upper corner.
    pub max: Vector3,
}

/// A confirmed intersection between the primitives of two entities.
#[derive(Clone, Copy, PartialEq, Eq, Structural, Debug)]
pub struct ContactEvent {
    /// Identifier of the first entity (smaller entity-list index).
    pub a: u64,
    /// Identifier of the second entity.
    pub b: u64,
    /// Midpoint between the two centers.
    pub point: Vector3,
    /// Separating direction from the first toward the second entity, not
    /// normalized; zero when the centers coincide.
    pub normal: Vector3,
    /// Penetration depth: combined radii minus center distance.
    pub depth: i64,
}

/// A collidable entity: a pose, a predicted next-frame pose, a velocity, a
/// spherical collision primitive and the bounding volume cached from the
/// predicted pose.
#[derive(Clone, Copy, PartialEq, Eq, Structural, Debug)]
pub struct Collidable {
    /// Identifier granted by the host entity storage.
    pub id: u64,
    /// Current-frame pose, the source of truth.
    pub pose: BodyPose3,
    /// Predicted pose for the upcoming frame.
    pub next_pose: BodyPose3,
    /// Velocity in coordinate steps per second.
    pub velocity: Vector3,
    /// Radius of the spherical collision primitive.
    pub radius: i64,
    /// Bounding volume derived from the predicted pose.
    pub bound: Aabb,
}

/// The bounding volume of a sphere of radius `r` centered at `p`.
pub open spec fn spec_bound_of(p: Point3, r: i64) -> Aabb {
    Aabb {
        min: Vector3 { x: (p.x - r) as i64, y: (p.y - r) as i64, z: (p.z - r) as i64 },
        max: Vector3 { x: (p.x + r) as i64, y: (p.y + r) as i64, z: (p.z + r) as i64 },
    }
}

impl Collidable {
    /// An entity is valid when its poses are in range, its radius is a
    /// positive primitive radius, and its bounding volume is the one
    /// derived from its predicted pose.
    pub open spec fn valid(self) -> bool {
        &&& self.pose.position.bounded(MAX_COORD as int)
        &&& self.pose.rotation.valid()
        &&& self.next_pose.position.bounded(MAX_COORD as int)
        &&& self.next_pose.rotation.valid()
        &&& self.velocity.bounded(MAX_COORD as int)
        &&& 0 < self.radius <= MAX_RADIUS
        &&& self.bound == spec_bound_of(self.next_pose.position, self.radius)
    }
}

/// A contact event whose fields are in the ranges collision detection can
/// produce; resolution relies on these bounds.
pub open spec fn spec_event_valid(e: ContactEvent) -> bool {
    &&& e.point.bounded(MAX_COORD as int)
    &&& e.normal.bounded(2 * MAX_COORD as int)
    &&& 0 <= e.depth <= 2 * MAX_RADIUS as int
}

/// Why registering an entity was refused.
#[derive(Clone, Copy, PartialEq, Eq, Structural, Debug)]
pub enum WorldError {
    /// Another entity with the same identifier is already registered.
    DuplicateEntity,
    /// A pose coordinate, velocity component, rotation component or the
    /// radius is out of range.
    OutOfRange,
}

/// The shared per-entity state all stages work on, together with the
/// contact-event channel and the registered storage schemas.
pub struct PhysicsWorld {
    /// Every collidable entity.
    pub entities: Vec<Collidable>,
    /// The durable contact-event channel: written by collision detection,
    /// drained by each contact-resolution reader.
    pub channel: EventChannel<ContactEvent>,
    /// The storage-schema combinations registered so far.
    pub registrations: Vec<Registration>,
}

impl PhysicsWorld {
    /// True when some entity carries identifier `id`.
    pub open spec fn has_id(self, id: u64) -> bool {
        exists|i: int| 0 <= i < self.entities@.len() && self.entities@[i].id == id
    }

    /// A world is well formed when entity identifiers are unique, every
    /// entity is valid, the channel is well formed and every event in it
    /// is in producible range.
    pub open spec fn wf(self) -> bool {
        &&& forall|i: int, j: int|
            0 <= i < j < self.entities@.len() ==> self.entities@[i].id != self.entities@[j].id
        &&& forall|i: int| 0 <= i < self.entities@.len() ==> #[trigger] self.entities@[i].valid()
        &&& self.channel.wf()
        &&& forall|k: int|
            0 <= k < self.channel.events@.len() ==> spec_event_valid(
                #[trigger] self.channel.events@[k],
            )
    }

    /// An empty world: no entities, no events, no readers, no
    /// registrations.
    pub fn new() -> (r: PhysicsWorld)
        ensures
            r.wf(),
            r.entities@ =~= Seq::<Collidable>::empty(),
            r.channel.events@ =~= Seq::<ContactEvent>::empty(),
            r.channel.cursors@ =~= Seq::<usize>::empty(),
            r.registrations@ =~= Seq::<Registration>::empty(),
    {
        PhysicsWorld {
            entities: Vec::new(),
            channel: EventChannel::new(),
            registrations: Vec::new(),
        }
    }

    /// The entity-list index carrying `id`, if any.
    fn find_entity(&self, id: u64) -> (r: Option<usize>)
        ensures
            match r {
                Some(k) => k < self.entities@.len() && self.entities@[k as int].id == id,
                None => !self.has_id(id),
            },
    {
        let n = self.entities.len();
        for k in 0..n
            invariant
                n == self.entities@.len(),
                forall|i: int| 0 <= i < k ==> self.entities@[i].id != id,
        {
            if self.entities[k].id == id {
                return Some(k);
            }
        }
        None
    }

    /// Grant `id` physics capability: create its pose, predicted pose and
    /// bounding volume. Succeeds exactly when the identifier is fresh and
    /// every value is in range; the world is unchanged on failure.
    pub fn register_entity(
        &mut self,
        id: u64,
        pose: BodyPose3,
        velocity: Vector3,
        radius: i64,
    ) -> (r: Result<(), WorldError>)
        requires
            old(self).wf(),
        ensures
            final(self).wf(),
            final(self).channel == old(self).channel,
            final(self).registrations == old(self).registrations,
            r is Ok <==> !old(self).has_id(id) && pose.position.bounded(MAX_COORD as int)
                && pose.rotation.valid() && velocity.bounded(MAX_COORD as int) && 0 < radius
                <= MAX_RADIUS,
            r == Err::<(), WorldError>(WorldError::DuplicateEntity) <==> old(self).has_id(id),
            r is Ok ==> final(self).entities@ == old(self).entities@.push(
                Collidable {
                    id,
                    pose,
                    next_pose: pose,
                    velocity,
                    radius,
                    bound: spec_bound_of(pose.position, radius),
                },
            ),
            r is Err ==> final(self).entities@ == old(self).entities@,
    {
        if let Some(_k) = self.find_entity(id) {
            return Err(WorldError::DuplicateEntity);
        }
        if !(pose.position.x >= -MAX_COORD && pose.position.x <= MAX_COORD && pose.position.y
            >= -MAX_COORD && pose.position.y <= MAX_COORD && pose.position.z >= -MAX_COORD
            && pose.position.z <= MAX_COORD) {
            return Err(WorldError::OutOfRange);
        }
        if !(pose.rotation.s >= -ONE && pose.rotation.s <= ONE && pose.rotation.x >= -ONE
            && pose.rotation.x <= ONE && pose.rotation.y >= -ONE && pose.rotation.y <= ONE
            && pose.rotation.z >= -ONE && pose.rotation.z <= ONE) {
            return Err(WorldError::OutOfRange);
        }
        if !(velocity.x >= -MAX_COORD && velocity.x <= MAX_COORD && velocity.y >= -MAX_COORD
            && velocity.y <= MAX_COORD && velocity.z >= -MAX_COORD && velocity.z <= MAX_COORD) {
            return Err(WorldError::OutOfRange);
        }
        if !(radius > 0 && radius <= MAX_RADIUS) {
            return Err(WorldError::OutOfRange);
        }
        let min = Vector3 {
            x: pose.position.x - radius,
            y: pose.position.y - radius,
            z: pose.position.z - radius,
        };
        let max = Vector3 {
            x: pose.position.x + radius,
            y: pose.position.y + radius,
            z: pose.position.z + radius,
        };
        self.entities.push(
            Collidable { id, pose, next_pose: pose, velocity, radius, bound: Aabb { min, max } },
        );
        Ok(())
    }

    /// Destroy the entity carrying `id`, if any; its pose, predicted pose
    /// and bounding volume disappear with it. Returns whether an entity
    /// was removed.
    pub fn destroy_entity(&mut self, id: u64) -> (r: bool)
        requires
            old(self).wf(),
        ensures
            final(self).wf(),
            final(self).channel == old(self).channel,
            final(self).registrations == old(self).registrations,
            r <==> old(self).has_id(id),
            r ==> exists|k: int|
                0 <= k < old(self).entities@.len() && old(self).entities@[k].id == id
                    && final(self).entities@ == old(self).entities@.remove(k),
            !r ==> final(self).entities@ == old(self).entities@,
            !final(self).has_id(id),
    {
        match self.find_entity(id) {
            Some(k) => {
                self.entities.remove(k);
                proof {
                    assert(final(self).entities@ =~= old(self).entities@.remove(k as int));
                    assert forall|i: int|
                        0 <= i < final(self).entities@.len() implies final(self).entities@[i].id
                        != id by {
                        if i < k {
                            assert(final(self).entities@[i] == old(self).entities@[i]);
                        } else {
                            assert(final(self).entities@[i] == old(self).entities@[i + 1]);
                        }
                    }
                }
                true
            },
            None => false,
        }
    }

    /// Record a storage-schema combination. Returns false, leaving the
    /// world unchanged, when the same combination was already registered.
    pub fn register_combination(&mut self, reg: Registration) -> (r: bool)
        requires
            old(self).wf(),
        ensures
            final(self).wf(),
            final(self).channel == old(self).channel,
            final(self).entities == old(self).entities,
            r <==> !old(self).registrations@.contains(reg),
            r ==> final(self).registrations@ == old(self).registrations@.push(reg),
            !r ==> final(self).registrations@ == old(self).registrations@,
    {
        let n = self.registrations.len();
        for k in 0..n
            invariant
                old(self).wf(),
                n == self.registrations@.len(),
                forall|i: int| 0 <= i < k ==> self.registrations@[i] != reg,
                *self == *old(self),
        {
            if self.registrations[k] == reg {
                return false;
            }
        }
        self.registrations.push(reg);
        true
    }
}

/// One Euler step of the frame state updater: the position advanced by
/// `velocity * dt / ONE` and clamped into coordinate range; rotation,
/// velocity, primitive, predicted pose and bounding volume untouched.
pub open spec fn spec_integrate_position(p: Point3, v: Vector3, dt: int) -> Point3 {
    Point3 {
        x: spec_clamp(p.x + spec_muldiv(v.x as int, dt, ONE as int), -MAX_COORD as int, MAX_COORD as int) as i64,
        y: spec_clamp(p.y + spec_muldiv(v.y as int, dt, ONE as int), -MAX_COORD as int, MAX_COORD as int) as i64,
        z: spec_clamp(p.z + spec_muldiv(v.z as int, dt, ONE as int), -MAX_COORD as int, MAX_COORD as int) as i64,
    }
}

/// The frame state updater's effect on one entity.
pub open spec fn spec_update_entity(e: Collidable, dt: int) -> Collidable {
    Collidable {
        pose: BodyPose3 {
            position: spec_integrate_position(e.pose.position, e.velocity, dt),
            rotation: e.pose.rotation,
        },
        ..e
    }
}

/// Law: the frame state updater leaves an entity without velocity exactly
/// as it was, whatever the time step.
pub proof fn lemma_zero_velocity_unchanged(e: Collidable, dt: int)
    requires
        e.valid(),
        e.velocity == (Vector3 { x: 0, y: 0, z: 0 }),
        0 <= dt <= ONE,
    ensures
        spec_update_entity(e, dt) == e,
{
    assert(spec_muldiv(0, dt, ONE as int) == 0);
}

/// The next-frame predictor's effect on one entity: the predicted pose is
/// one further Euler step from the current pose, and the bounding volume
/// is recomputed from it; the current pose is never overwritten.
pub open spec fn spec_predict_entity(e: Collidable, dt: int) -> Collidable {
    let np = spec_integrate_position(e.pose.position, e.velocity, dt);
    Collidable {
        next_pose: BodyPose3 { position: np, rotation: e.pose.rotation },
        bound: spec_bound_of(np, e.radius),
        ..e
    }
}

/// Advance one position component; shared by the updater and the
/// predictor.
fn integrate_coord(p: i64, v: i64, dt: i64) -> (r: i64)
    requires
        -MAX_COORD <= p <= MAX_COORD,
        -MAX_COORD <= v <= MAX_COORD,
        0 <= dt <= ONE,
    ensures
        r == spec_clamp(
            p + spec_muldiv(v as int, dt as int, ONE as int),
            -MAX_COORD as int,
            MAX_COORD as int,
        ),
        -MAX_COORD <= r <= MAX_COORD,
{
    proof {
        assert(-0x4000_0000_0000_0000 <= (v as int) * dt <= 0x4000_0000_0000_0000)
            by (nonlinear_arith)
            requires
                -MAX_COORD <= v <= MAX_COORD,
                0 <= dt <= ONE,
        ;
    }
    let shift = muldiv(v, dt, ONE);
    clamp64(p + shift, -MAX_COORD, MAX_COORD)
}

impl PhysicsWorld {
    /// Frame state updater (runs first, no upstream dependency): for every
    /// entity, integrate the current pose forward by the elapsed
    /// simulation time `dt` (in millionths of a second). Entities with
    /// zero velocity are left unchanged; nothing else in the world is
    /// touched.
    pub fn current_frame_update(&mut self, dt: i64)
        requires
            old(self).wf(),
            0 <= dt <= ONE,
        ensures
            final(self).wf(),
            final(self).channel == old(self).channel,
            final(self).registrations == old(self).registrations,
            final(self).entities@.len() == old(self).entities@.len(),
            forall|k: int|
                0 <= k < old(self).entities@.len() ==> final(self).entities@[k]
                    == spec_update_entity(#[trigger] old(self).entities@[k], dt as int),
    {
        let n = self.entities.len();
        for k in 0..n
            invariant
                0 <= dt <= ONE,
                n == self.entities@.len(),
                old(self).wf(),
                self.channel == old(self).channel,
                self.registrations == old(self).registrations,
                n == old(self).entities@.len(),
                forall|i: int|
                    0 <= i < k ==> self.entities@[i] == spec_update_entity(
                        #[trigger] old(self).entities@[i],
                        dt as int,
                    ),
                forall|i: int| k <= i < n ==> self.entities@[i] == old(self).entities@[i],
        {
            proof {
                assert(old(self).entities@[k as int].valid());
            }
            let e = self.entities[k];
            let p = e.pose.position;
            let np = Point3 {
                x: integrate_coord(p.x, e.velocity.x, dt),
                y: integrate_coord(p.y, e.velocity.y, dt),
                z: integrate_coord(p.z, e.velocity.z, dt),
            };
            let e2 = Collidable {
                pose: BodyPose3 { position: np, rotation: e.pose.rotation },
                ..e
            };
            self.entities.set(k, e2);
        }
        proof {
            assert forall|i: int, j: int|
                0 <= i < j < final(self).entities@.len() implies final(self).entities@[i].id
                != final(self).entities@[j].id by {
                assert(old(self).entities@[i].valid());
                assert(final(self).entities@[i].id == old(self).entities@[i].id);
                assert(final(self).entities@[j].id == old(self).entities@[j].id);
            }
            assert forall|i: int| 0 <= i < final(self).entities@.len() implies #[trigger]
                final(self).entities@[i].valid() by {
                assert(old(self).entities@[i].valid());
                assert(final(self).entities@[i] == spec_update_entity(
                    old(self).entities@[i],
                    dt as int,
                ));
            }
        }
    }

    /// Next-frame predictor (depends on the updater having completed):
    /// compute a predicted pose one step ahead of every entity's current
    /// pose, write it to the separate next-frame slot, and recompute the
    /// bounding volume from it. The current-frame pose is never
    /// overwritten.
    pub fn next_frame_setup(&mut self, dt: i64)
        requires
            old(self).wf(),
            0 <= dt <= ONE,
        ensures
            final(self).wf(),
            final(self).channel == old(self).channel,
            final(self).registrations == old(self).registrations,
            final(self).entities@.len() == old(self).entities@.len(),
            forall|k: int|
                0 <= k < old(self).entities@.len() ==> final(self).entities@[k]
                    == spec_predict_entity(#[trigger] old(self).entities@[k], dt as int),
            forall|k: int|
                0 <= k < old(self).entities@.len() ==> final(self).entities@[k].pose
                    == old(self).entities@[k].pose,
    {
        let n = self.entities.len();
        for k in 0..n
            invariant
                0 <= dt <= ONE,
                n == self.entities@.len(),
                old(self).wf(),
                self.channel == old(self).channel,
                self.registrations == old(self).registrations,
                n == old(self).entities@.len(),
                forall|i: int|
                    0 <= i < k ==> self.entities@[i] == spec_predict_entity(
                        #[trigger] old(self).entities@[i],
                        dt as int,
                    ),
                forall|i: int| k <= i < n ==> self.entities@[i] == old(self).entities@[i],
        {
            proof {
                assert(old(self).entities@[k as int].valid());
            }
            let e = self.entities[k];
            let p = e.pose.position;
            let np = Point3 {
                x: integrate_coord(p.x, e.velocity.x, dt),
                y: integrate_coord(p.y, e.velocity.y, dt),
                z: integrate_coord(p.z, e.velocity.z, dt),
            };
            let min = Vector3 { x: np.x - e.radius, y: np.y - e.radius, z: np.z - e.radius };
            let max = Vector3 { x: np.x + e.radius, y: np.y + e.radius, z: np.z + e.radius };
            let e2 = Collidable {
                next_pose: BodyPose3 { position: np, rotation: e.pose.rotation },
                bound: Aabb { min, max },
                ..e
            };
            self.entities.set(k, e2);
        }
        proof {
            assert forall|i: int, j: int|
                0 <= i < j < final(self).entities@.len() implies final(self).entities@[i].id
                != final(self).entities@[j].id by {
                assert(old(self).entities@[i].valid());
                assert(final(self).entities@[i].id == old(self).entities@[i].id);
                assert(final(self).entities@[j].id == old(self).entities@[j].id);
            }
            assert forall|i: int| 0 <= i < final(self).entities@.len() implies #[trigger]
                final(self).entities@[i].valid() by {
                assert(old(self).entities@[i].valid());
                assert(final(self).entities@[i] == spec_predict_entity(
                    old(self).entities@[i],
                    dt as int,
                ));
            }
        }
    }
}

/// True when no two entities share an identifier.
pub open spec fn spec_unique_ids(s: Seq<Collidable>) -> bool {
    forall|i: int, j: int| 0 <= i < j < s.len() ==> s[i].id != s[j].id
}

/// True when some entity in `s` carries identifier `id`.
pub open spec fn spec_has_id(s: Seq<Collidable>, id: u64) -> bool {
    exists|i: int| 0 <= i < s.len() && s[i].id == id
}

/// The index of the entity carrying `id` (unique when identifiers are).
pub open spec fn spec_index_of(s: Seq<Collidable>, id: u64) -> int {
    choose|i: int| 0 <= i < s.len() && s[i].id == id
}

/// Broad-phase overlap test: two axis-aligned boxes overlap when their
/// intervals meet on every axis.
pub open spec fn spec_overlap(a: Aabb, b: Aabb) -> bool {
    &&& a.min.x <= b.max.x && b.min.x <= a.max.x
    &&& a.min.y <= b.max.y && b.min.y <= a.max.y
    &&& a.min.z <= b.max.z && b.min.z <= a.max.z
}

/// Squared distance between two points.
pub open spec fn spec_dist2(p: Point3, q: Point3) -> int {
    (q.x - p.x) * (q.x - p.x) + (q.y - p.y) * (q.y - p.y) + (q.z - p.z) * (q.z - p.z)
}

/// Narrow-phase test: two spherical primitives intersect under their
/// predicted poses when the center distance is at most the radius sum.
pub open spec fn spec_touching(a: Collidable, b: Collidable) -> bool {
    spec_dist2(a.next_pose.position, b.next_pose.position) <= (a.radius + b.radius) * (a.radius
        + b.radius)
}

/// The contact event for an intersecting pair: midpoint contact point,
/// unnormalized separating direction, penetration depth.
pub open spec fn spec_contact_of(a: Collidable, b: Collidable) -> ContactEvent {
    let pa = a.next_pose.position;
    let pb = b.next_pose.position;
    let dist = spec_isqrt(spec_dist2(pa, pb));
    ContactEvent {
        a: a.id,
        b: b.id,
        point: Vector3 {
            x: spec_half(pa.x + pb.x) as i64,
            y: spec_half(pa.y + pb.y) as i64,
            z: spec_half(pa.z + pb.z) as i64,
        },
        normal: Vector3 {
            x: (pb.x - pa.x) as i64,
            y: (pb.y - pa.y) as i64,
            z: (pb.z - pa.z) as i64,
        },
        depth: (a.radius + b.radius - dist) as i64,
    }
}

/// The contact events for the pairs `(i, j), (i, j+1), ...` of one row of
/// the pair enumeration.
pub open spec fn spec_collide_row(s: Seq<Collidable>, i: int, j: int) -> Seq<ContactEvent>
    decreases s.len() - j,
{
    if j >= s.len() || !(0 <= i < j) {
        Seq::empty()
    } else if spec_touching(s[i], s[j]) {
        seq![spec_contact_of(s[i], s[j])] + spec_collide_row(s, i, j + 1)
    } else {
        spec_collide_row(s, i, j + 1)
    }
}

/// All contact events of one tick: every unordered pair `(a, b)` with
/// `i <= a < b`, visited in index order.
pub open spec fn spec_collide(s: Seq<Collidable>, i: int) -> Seq<ContactEvent>
    decreases s.len() - i,
{
    if i < 0 || i >= s.len() {
        Seq::empty()
    } else {
        spec_collide_row(s, i, i + 1) + spec_collide(s, i + 1)
    }
}

/// Bounding volumes envelop their primitives, so intersecting primitives
/// always have overlapping volumes; the broad phase therefore never culls
/// a truly intersecting pair.
pub proof fn lemma_touching_implies_overlap(a: Collidable, b: Collidable)
    requires
        a.valid(),
        b.valid(),
        spec_touching(a, b),
    ensures
        spec_overlap(a.bound, b.bound),
{
    let pa = a.next_pose.position;
    let pb = b.next_pose.position;
    let rs = a.radius + b.radius;
    assert(-rs <= pb.x - pa.x <= rs && -rs <= pb.y - pa.y <= rs && -rs <= pb.z - pa.z <= rs)
        by (nonlinear_arith)
        requires
            spec_dist2(pa, pb) <= rs * rs,
            0 < rs,
    ;
}

/// Exact broad-phase test.
fn aabb_overlap(a: Aabb, b: Aabb) -> (r: bool)
    ensures
        r == spec_overlap(a, b),
{
    a.min.x <= b.max.x && b.min.x <= a.max.x && a.min.y <= b.max.y && b.min.y <= a.max.y
        && a.min.z <= b.max.z && b.min.z <= a.max.z
}

impl PhysicsWorld {
    /// Collision detection: the broad phase culls pairs by bounding-volume
    /// overlap, the narrow phase tests the surviving pairs' primitives
    /// under their predicted poses, and one contact event per intersecting
    /// pair is pushed to the channel, in pair-index order. Nothing else in
    /// the world is touched; no reader cursor moves.
    pub fn run_collision(&mut self)
        requires
            old(self).wf(),
        ensures
            final(self).wf(),
            final(self).entities == old(self).entities,
            final(self).registrations == old(self).registrations,
            final(self).channel.cursors@ == old(self).channel.cursors@,
            final(self).channel.events@ == old(self).channel.events@ + spec_collide(
                old(self).entities@,
                0,
            ),
    {
        let ghost s = self.entities@;
        let ghost base = self.channel.events@;
        let ghost mut acc: Seq<ContactEvent> = Seq::empty();
        proof {
            assert(base + acc =~= base);
        }
        let n = self.entities.len();
        for i in 0..n
            invariant
                n == self.entities@.len(),
                s == self.entities@,
                old(self).wf(),
                self.entities == old(self).entities,
                self.registrations == old(self).registrations,
                self.channel.cursors@ == old(self).channel.cursors@,
                base == old(self).channel.events@,
                self.channel.events@ == base + acc,
                acc + spec_collide(s, i as int) == spec_collide(s, 0),
                self.channel.wf(),
                forall|k: int|
                    0 <= k < self.channel.events@.len() ==> spec_event_valid(
                        #[trigger] self.channel.events@[k],
                    ),
        {
            proof {
                assert(spec_collide(s, i as int) == spec_collide_row(s, i as int, i + 1)
                    + spec_collide(s, i + 1));
                assert((acc + spec_collide_row(s, i as int, i + 1)) + spec_collide(s, i + 1)
                    =~= acc + (spec_collide_row(s, i as int, i + 1) + spec_collide(s, i + 1)));
            }
            let mut j = i + 1;
            while j < n
                invariant
                    i < j <= n,
                    n == self.entities@.len(),
                    s == self.entities@,
                    old(self).wf(),
                    self.entities == old(self).entities,
                    self.registrations == old(self).registrations,
                    self.channel.cursors@ == old(self).channel.cursors@,
                    base == old(self).channel.events@,
                    self.channel.events@ == base + acc,
                    (acc + spec_collide_row(s, i as int, j as int)) + spec_collide(s, i + 1)
                        == spec_collide(s, 0),
                    self.channel.wf(),
                    forall|k: int|
                        0 <= k < self.channel.events@.len() ==> spec_event_valid(
                            #[trigger] self.channel.events@[k],
                        ),
                decreases n - j,
            {
                proof {
                    assert(old(self).entities@[i as int].valid());
                    assert(old(self).entities@[j as int].valid());
                }
                let ea = self.entities[i];
                let eb = self.entities[j];
                let mut hit = false;
                if aabb_overlap(ea.bound, eb.bound) {
                    let pa = ea.next_pose.position;
                    let pb = eb.next_pose.position;
                    let dx = pb.x - pa.x;
                    let dy = pb.y - pa.y;
                    let dz = pb.z - pa.z;
                    proof {
                        assert(0 <= dx * dx <= 1_000_000_000_000_000_000 && 0 <= dy * dy
                            <= 1_000_000_000_000_000_000 && 0 <= dz * dz
                            <= 1_000_000_000_000_000_000) by (nonlinear_arith)
                            requires
                                -1_000_000_000 <= dx <= 1_000_000_000,
                                -1_000_000_000 <= dy <= 1_000_000_000,
                                -1_000_000_000 <= dz <= 1_000_000_000,
                        ;
                    }
                    let d2 = dx * dx + dy * dy + dz * dz;
                    let rs = ea.radius + eb.radius;
                    proof {
                        assert(0 <= rs * rs <= 40_000_000_000_000_000) by (nonlinear_arith)
                            requires
                                0 < rs <= 200_000_000,
                        ;
                    }
                    if d2 <= rs * rs {
                        hit = true;
                        let dist = isqrt(d2);
                        proof {
                            assert(dist <= rs) by (nonlinear_arith)
                                requires
                                    (dist as int) * (dist as int) <= d2 as int,
                                    d2 as int <= (rs as int) * (rs as int),
                                    0 <= dist,
                                    0 < rs,
                            ;
                        }
                        let depth = rs - dist;
                        let event = ContactEvent {
                            a: ea.id,
                            b: eb.id,
                            point: Vector3 {
                                x: half64(pa.x + pb.x),
                                y: half64(pa.y + pb.y),
                                z: half64(pa.z + pb.z),
                            },
                            normal: Vector3 { x: dx, y: dy, z: dz },
                            depth,
                        };
                        proof {
                            assert(spec_touching(s[i as int], s[j as int]));
                            assert(event == spec_contact_of(s[i as int], s[j as int]));
                            assert(spec_event_valid(event));
                        }
                        self.channel.single_write(event);
                        proof {
                            let ghost c = spec_contact_of(s[i as int], s[j as int]);
                            assert(spec_collide_row(s, i as int, j as int) == seq![c]
                                + spec_collide_row(s, i as int, j + 1));
                            assert(self.channel.events@ =~= base + acc.push(c));
                            assert((acc.push(c) + spec_collide_row(s, i as int, j + 1))
                                =~= (acc + spec_collide_row(s, i as int, j as int)));
                            acc = acc.push(c);
                        }
                    }
                }
                proof {
                    if !hit {
                        if spec_touching(s[i as int], s[j as int]) {
                            lemma_touching_implies_overlap(s[i as int], s[j as int]);
                        }
                        assert(!spec_touching(s[i as int], s[j as int]));
                        assert(spec_collide_row(s, i as int, j as int) == spec_collide_row(
                            s,
                            i as int,
                            j + 1,
                        ));
                    }
                }
                j = j + 1;
            }
            proof {
                assert(spec_collide_row(s, i as int, n as int) =~= Seq::<ContactEvent>::empty());
                assert(acc + spec_collide_row(s, i as int, n as int) =~= acc);
            }
        }
        proof {
            assert(spec_collide(s, n as int) =~= Seq::<ContactEvent>::empty());
            assert(acc + spec_collide(s, n as int) =~= acc);
            assert(self.channel.events@ == base + spec_collide(s, 0));
        }
    }
}

/// The positional-correction shift for one event: half the penetration
/// depth plus one step, pushed along the stored separating direction, or
/// along the first axis when the centers coincided.
pub open spec fn spec_shift_of(e: ContactEvent) -> Vector3 {
    let d2 = (e.normal.x as int) * e.normal.x + (e.normal.y as int) * e.normal.y + (
    e.normal.z as int) * e.normal.z;
    let dist = spec_isqrt(d2);
    let sep = e.depth / 2 + 1;
    if dist > 0 {
        Vector3 {
            x: spec_muldiv(e.normal.x as int, sep as int, dist) as i64,
            y: spec_muldiv(e.normal.y as int, sep as int, dist) as i64,
            z: spec_muldiv(e.normal.z as int, sep as int, dist) as i64,
        }
    } else {
        Vector3 { x: sep as i64, y: 0, z: 0 }
    }
}

/// One entity translated by `sh`: both poses shift (clamped into
/// coordinate range) and the bounding volume is recomputed from the new
/// predicted position.
pub open spec fn spec_move_entity(e: Collidable, sh: Vector3) -> Collidable {
    let p = Point3 {
        x: spec_clamp(e.pose.position.x + sh.x, -MAX_COORD as int, MAX_COORD as int) as i64,
        y: spec_clamp(e.pose.position.y + sh.y, -MAX_COORD as int, MAX_COORD as int) as i64,
        z: spec_clamp(e.pose.position.z + sh.z, -MAX_COORD as int, MAX_COORD as int) as i64,
    };
    let np = Point3 {
        x: spec_clamp(e.next_pose.position.x + sh.x, -MAX_COORD as int, MAX_COORD as int) as i64,
        y: spec_clamp(e.next_pose.position.y + sh.y, -MAX_COORD as int, MAX_COORD as int) as i64,
        z: spec_clamp(e.next_pose.position.z + sh.z, -MAX_COORD as int, MAX_COORD as int) as i64,
    };
    Collidable {
        pose: BodyPose3 { position: p, rotation: e.pose.rotation },
        next_pose: BodyPose3 { position: np, rotation: e.next_pose.rotation },
        bound: spec_bound_of(np, e.radius),
        ..e
    }
}

/// Resolution of one contact event: both referenced entities move apart by
/// the correction shift. An event referencing a destroyed entity is
/// discarded and changes nothing.
pub open spec fn spec_resolve_one(s: Seq<Collidable>, e: ContactEvent) -> Seq<Collidable> {
    if !spec_has_id(s, e.a) || !spec_has_id(s, e.b) || e.a == e.b {
        s
    } else {
        let ia = spec_index_of(s, e.a);
        let ib = spec_index_of(s, e.b);
        let sh = spec_shift_of(e);
        let neg = Vector3 {
            x: (-(sh.x as int)) as i64,
            y: (-(sh.y as int)) as i64,
            z: (-(sh.z as int)) as i64,
        };
        s.update(ia, spec_move_entity(s[ia], neg)).update(ib, spec_move_entity(s[ib], sh))
    }
}

/// Resolution of a drained batch, front to back.
pub open spec fn spec_resolve_all(s: Seq<Collidable>, evs: Seq<ContactEvent>) -> Seq<Collidable>
    decreases evs.len(),
{
    if evs.len() == 0 {
        s
    } else {
        spec_resolve_all(spec_resolve_one(s, evs[0]), evs.drop_first())
    }
}

impl PhysicsWorld {
    /// Translate one entity, clamping into coordinate range and recomputing
    /// its bounding volume.
    fn move_entity(e: Collidable, sh: Vector3) -> (r: Collidable)
        requires
            e.valid(),
            sh.bounded(200_000_001),
        ensures
            r == spec_move_entity(e, sh),
            r.valid(),
            r.id == e.id,
    {
        let p = Point3 {
            x: clamp64(e.pose.position.x + sh.x, -MAX_COORD, MAX_COORD),
            y: clamp64(e.pose.position.y + sh.y, -MAX_COORD, MAX_COORD),
            z: clamp64(e.pose.position.z + sh.z, -MAX_COORD, MAX_COORD),
        };
        let np = Point3 {
            x: clamp64(e.next_pose.position.x + sh.x, -MAX_COORD, MAX_COORD),
            y: clamp64(e.next_pose.position.y + sh.y, -MAX_COORD, MAX_COORD),
            z: clamp64(e.next_pose.position.z + sh.z, -MAX_COORD, MAX_COORD),
        };
        let min = Vector3 { x: np.x - e.radius, y: np.y - e.radius, z: np.z - e.radius };
        let max = Vector3 { x: np.x + e.radius, y: np.y + e.radius, z: np.z + e.radius };
        Collidable {
            pose: BodyPose3 { position: p, rotation: e.pose.rotation },
            next_pose: BodyPose3 { position: np, rotation: e.next_pose.rotation },
            bound: Aabb { min, max },
            ..e
        }
    }

    /// Apply one contact event: push the two referenced entities apart. An
    /// event referencing a destroyed entity, or with both sides equal, is
    /// discarded without touching any pose.
    fn apply_contact(&mut self, e: ContactEvent)
        requires
            old(self).wf(),
            spec_event_valid(e),
        ensures
            final(self).wf(),
            final(self).channel == old(self).channel,
            final(self).registrations == old(self).registrations,
            final(self).entities@ == spec_resolve_one(old(self).entities@, e),
    {
        let ghost s = old(self).entities@;
        let ia_opt = self.find_entity(e.a);
        let ib_opt = self.find_entity(e.b);
        let ia = match ia_opt {
            Some(k) => k,
            None => {
                return;
            },
        };
        let ib = match ib_opt {
            Some(k) => k,
            None => {
                return;
            },
        };
        if e.a == e.b {
            return;
        }
        proof {
            assert(s[ia as int].valid());
            assert(s[ib as int].valid());
            assert(spec_index_of(s, e.a) == ia as int) by {
                let w = spec_index_of(s, e.a);
                assert(0 <= w < s.len() && s[w].id == e.a) by {
                    assert(spec_has_id(s, e.a));
                }
                if w != ia as int {
                    assert(s[w].id != s[ia as int].id);
                }
            }
            assert(spec_index_of(s, e.b) == ib as int) by {
                let w = spec_index_of(s, e.b);
                assert(0 <= w < s.len() && s[w].id == e.b) by {
                    assert(spec_has_id(s, e.b));
                }
                if w != ib as int {
                    assert(s[w].id != s[ib as int].id);
                }
            }
            assert(ia != ib);
        }
        let nx = e.normal.x;
        let ny = e.normal.y;
        let nz = e.normal.z;
        proof {
            assert(0 <= nx * nx <= 1_000_000_000_000_000_000 && 0 <= ny * ny
                <= 1_000_000_000_000_000_000 && 0 <= nz * nz <= 1_000_000_000_000_000_000)
                by (nonlinear_arith)
                requires
                    -1_000_000_000 <= nx <= 1_000_000_000,
                    -1_000_000_000 <= ny <= 1_000_000_000,
                    -1_000_000_000 <= nz <= 1_000_000_000,
            ;
        }
        let d2 = nx * nx + ny * ny + nz * nz;
        let dist = isqrt(d2);
        let sep = e.depth / 2 + 1;
        let sh = if dist > 0 {
            proof {
                assert(-dist <= nx <= dist && -dist <= ny <= dist && -dist <= nz <= dist)
                    by (nonlinear_arith)
                    requires
                        nx * nx <= d2 as int,
                        ny * ny <= d2 as int,
                        nz * nz <= d2 as int,
                        (d2 as int) < (dist + 1) * (dist + 1),
                        0 <= dist,
                ;
                assert(-0x4000_0000_0000_0000 <= (nx as int) * sep <= 0x4000_0000_0000_0000
                    && -0x4000_0000_0000_0000 <= (ny as int) * sep <= 0x4000_0000_0000_0000
                    && -0x4000_0000_0000_0000 <= (nz as int) * sep <= 0x4000_0000_0000_0000)
                    by (nonlinear_arith)
                    requires
                        -1_000_000_000 <= nx <= 1_000_000_000,
                        -1_000_000_000 <= ny <= 1_000_000_000,
                        -1_000_000_000 <= nz <= 1_000_000_000,
                        0 <= sep <= 200_000_001,
                ;
            }
            Vector3 {
                x: muldiv(nx, sep, dist),
                y: muldiv(ny, sep, dist),
                z: muldiv(nz, sep, dist),
            }
        } else {
            Vector3 { x: sep, y: 0, z: 0 }
        };
        proof {
            assert(sh == spec_shift_of(e));
            assert(sh.bounded(200_000_001));
        }
        let neg = Vector3 { x: -sh.x, y: -sh.y, z: -sh.z };
        let ea = self.entities[ia];
        let eb = self.entities[ib];
        let ma = Self::move_entity(ea, neg);
        let mb = Self::move_entity(eb, sh);
        self.entities.set(ia, ma);
        self.entities.set(ib, mb);
        proof {
            assert(final(self).entities@ =~= s.update(ia as int, ma).update(ib as int, mb));
            assert(final(self).entities@ == spec_resolve_one(s, e));
            assert forall|i: int, j: int|
                0 <= i < j < final(self).entities@.len() implies final(self).entities@[i].id
                != final(self).entities@[j].id by {
                assert(final(self).entities@[i].id == s[i].id);
                assert(final(self).entities@[j].id == s[j].id);
            }
            assert forall|i: int| 0 <= i < final(self).entities@.len() implies #[trigger]
                final(self).entities@[i].valid() by {
                assert(s[i].valid());
            }
        }
    }

    /// Contact resolution: drain every event appended since this reader's
    /// last drain (exactly once, in write order) and resolve each by
    /// pushing the two referenced entities apart; events whose entities
    /// have been destroyed are skipped. Only this reader's cursor moves;
    /// the log itself is untouched.
    pub fn contact_resolution(&mut self, reader: ReaderId)
        requires
            old(self).wf(),
            old(self).channel.reader_valid(reader),
        ensures
            final(self).wf(),
            final(self).registrations == old(self).registrations,
            final(self).channel.events@ == old(self).channel.events@,
            final(self).channel.cursors@ == old(self).channel.cursors@.update(
                reader.index as int,
                old(self).channel.events@.len() as usize,
            ),
            final(self).entities@ == spec_resolve_all(
                old(self).entities@,
                old(self).channel.pending(reader),
            ),
    {
        let events = self.channel.read(reader);
        let ghost evs = events@;
        proof {
            assert forall|k: int| 0 <= k < evs.len() implies spec_event_valid(
                #[trigger] evs[k],
            ) by {
                assert(evs[k] == old(self).channel.events@[old(
                    self,
                ).channel.cursors@[reader.index as int] + k]);
            }
        }
        let n = events.len();
        proof {
            assert(evs.subrange(0, n as int) =~= evs);
        }
        for k in 0..n
            invariant
                n == evs.len(),
                evs == events@,
                self.wf(),
                self.channel.events@ == old(self).channel.events@,
                self.channel.cursors@ == old(self).channel.cursors@.update(
                    reader.index as int,
                    old(self).channel.events@.len() as usize,
                ),
                self.registrations == old(self).registrations,
                forall|q: int| 0 <= q < evs.len() ==> spec_event_valid(#[trigger] evs[q]),
                spec_resolve_all(self.entities@, evs.subrange(k as int, n as int))
                    == spec_resolve_all(old(self).entities@, evs),
        {
            let ghost before = self.entities@;
            let e = events[k];
            self.apply_contact(e);
            proof {
                assert(evs.subrange(k as int, n as int).drop_first() =~= evs.subrange(
                    k + 1,
                    n as int,
                ));
                assert(evs.subrange(k as int, n as int)[0] == evs[k as int]);
                assert(spec_resolve_all(before, evs.subrange(k as int, n as int))
                    == spec_resolve_all(
                    spec_resolve_one(before, evs[k as int]),
                    evs.subrange(k + 1, n as int),
                ));
            }
        }
        proof {
            assert(evs.subrange(n as int, n as int) =~= Seq::<ContactEvent>::empty());
        }
    }
}

/// Number of events in `evs` whose entity pair is `(x, y)`.
pub open spec fn spec_count_pair(evs: Seq<ContactEvent>, x: u64, y: u64) -> int
    decreases evs.len(),
{
    if evs.len() == 0 {
        0
    } else {
        (if evs[0].a == x && evs[0].b == y {
            1int
        } else {
            0int
        }) + spec_count_pair(evs.drop_first(), x, y)
    }
}

/// Pair counts add over concatenation.
proof fn lemma_count_pair_append(e1: Seq<ContactEvent>, e2: Seq<ContactEvent>, x: u64, y: u64)
    ensures
        spec_count_pair(e1 + e2, x, y) == spec_count_pair(e1, x, y) + spec_count_pair(e2, x, y),
    decreases e1.len(),
{
    if e1.len() == 0 {
        assert(e1 + e2 =~= e2);
    } else {
        assert((e1 + e2).drop_first() =~= e1.drop_first() + e2);
        lemma_count_pair_append(e1.drop_first(), e2, x, y);
    }
}

/// Pair count of one row of the pair enumeration.
proof fn lemma_row_count(s: Seq<Collidable>, i: int, j: int, a: int, b: int)
    requires
        spec_unique_ids(s),
        0 <= i < j,
        i < s.len(),
        0 <= a < b < s.len(),
    ensures
        spec_count_pair(spec_collide_row(s, i, j), s[a].id, s[b].id) == if a == i && j <= b
            && spec_touching(s[a], s[b]) {
            1int
        } else {
            0int
        },
    decreases s.len() - j,
{
    if j >= s.len() {
        assert(spec_collide_row(s, i, j) =~= Seq::<ContactEvent>::empty());
    } else {
        lemma_row_count(s, i, j + 1, a, b);
        if spec_touching(s[i], s[j]) {
            let c = spec_contact_of(s[i], s[j]);
            assert(spec_collide_row(s, i, j) == seq![c] + spec_collide_row(s, i, j + 1));
            lemma_count_pair_append(seq![c], spec_collide_row(s, i, j + 1), s[a].id, s[b].id);
            assert(seq![c].drop_first() =~= Seq::<ContactEvent>::empty());
            assert(spec_count_pair(Seq::<ContactEvent>::empty(), s[a].id, s[b].id) == 0);
            assert(seq![c][0] == c);
            assert(spec_count_pair(seq![c], s[a].id, s[b].id) == if c.a == s[a].id && c.b
                == s[b].id {
                1int
            } else {
                0int
            });
            if c.a == s[a].id && c.b == s[b].id {
                assert(i == a) by {
                    if i != a {
                        if i < a {
                            assert(s[i].id != s[a].id);
                        } else {
                            assert(s[a].id != s[i].id);
                        }
                    }
                }
                assert(j == b) by {
                    if j != b {
                        if j < b {
                            assert(s[j].id != s[b].id);
                        } else {
                            assert(s[b].id != s[j].id);
                        }
                    }
                }
            }
        }
    }
}

/// Pair count of the full enumeration from row `i` on.
proof fn lemma_collide_count(s: Seq<Collidable>, i: int, a: int, b: int)
    requires
        spec_unique_ids(s),
        0 <= i,
        0 <= a < b < s.len(),
    ensures
        spec_count_pair(spec_collide(s, i), s[a].id, s[b].id) == if i <= a && spec_touching(
            s[a],
            s[b],
        ) {
            1int
        } else {
            0int
        },
    decreases s.len() - i,
{
    if i >= s.len() {
        assert(spec_collide(s, i) =~= Seq::<ContactEvent>::empty());
    } else {
        lemma_count_pair_append(
            spec_collide_row(s, i, i + 1),
            spec_collide(s, i + 1),
            s[a].id,
            s[b].id,
        );
        lemma_row_count(s, i, i + 1, a, b);
        lemma_collide_count(s, i + 1, a, b);
    }
}

/// Law: collision detection emits, per tick, exactly one contact event for
/// every pair of entities whose primitives intersect under their predicted
/// poses, and none for any pair that does not intersect.
pub proof fn lemma_one_event_per_intersecting_pair(s: Seq<Collidable>, a: int, b: int)
    requires
        spec_unique_ids(s),
        0 <= a < b < s.len(),
    ensures
        spec_count_pair(spec_collide(s, 0), s[a].id, s[b].id) == if spec_touching(s[a], s[b]) {
            1int
        } else {
            0int
        },
{
    lemma_collide_count(s, 0, a, b);
}

/// Law: a pair of entities whose bounding volumes do not overlap never
/// produces a contact event in that tick.
pub proof fn lemma_no_event_without_overlap(s: Seq<Collidable>, a: int, b: int)
    requires
        spec_unique_ids(s),
        forall|i: int| 0 <= i < s.len() ==> (#[trigger] s[i]).valid(),
        0 <= a < b < s.len(),
        !spec_overlap(s[a].bound, s[b].bound),
    ensures
        spec_count_pair(spec_collide(s, 0), s[a].id, s[b].id) == 0,
{
    if spec_touching(s[a], s[b]) {
        lemma_touching_implies_overlap(s[a], s[b]);
    }
    lemma_collide_count(s, 0, a, b);
}

/// Law: a contact event that references a destroyed entity is silently
/// discarded — resolution of that event leaves every entity, including the
/// surviving one, exactly as it was.
pub proof fn lemma_stale_event_skipped(s: Seq<Collidable>, e: ContactEvent)
    requires
        !spec_has_id(s, e.a) || !spec_has_id(s, e.b),
    ensures
        spec_resolve_one(s, e) == s,
{
}

} // verus!
