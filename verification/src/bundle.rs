//! The pipeline assemblers: one per dimensionality, each registering the
//! storage schema for its (dimensionality, primitive) combination, a reader
//! cursor on the contact-event channel, and the four simulation stages with
//! their hard ordering dependencies.

use crate::channel::ReaderId;
use crate::physics::{Dim, PhysicsWorld, PrimitiveKind, Registration};
use vstd::prelude::*;

verus! {

/// The four stages of the physics pipeline, in their mandatory order.
#[derive(Clone, Copy, PartialEq, Eq, Structural, Debug)]
pub enum StageKind {
    /// Frame state updater: integrates every pose by the tick's time step.
    CurrentFrameUpdate,
    /// Next-frame predictor: fills the predicted pose slot.
    NextFrameSetup,
    /// Collision detection: broad phase, narrow phase, event emission.
    Collision,
    /// Contact resolution: drains its reader cursor and separates pairs.
    ContactResolution,
}

/// One scheduled stage: its kind, the stage it must run after, and — for
/// contact resolution — the reader cursor it owns.
#[derive(Clone, Copy, PartialEq, Eq, Debug)]
pub struct StageEntry {
    /// Which stage runs.
    pub kind: StageKind,
    /// The stage that must have completed first, if any.
    pub dep: Option<StageKind>,
    /// The contact-event reader this stage drains, if any.
    pub reader: Option<ReaderId>,
}

/// The host's stage graph under construction: stages in insertion order,
/// each with its declared dependency.
pub struct DispatcherBuilder {
    /// The stages added so far.
    pub stages: Vec<StageEntry>,
}

impl DispatcherBuilder {
    /// An empty stage graph.
    pub fn new() -> (r: DispatcherBuilder)
        ensures
            r.stages@ =~= Seq::<StageEntry>::empty(),
    {
        DispatcherBuilder { stages: Vec::new() }
    }
}

/// Why assembling a pipeline failed.
#[derive(Clone, Copy, PartialEq, Eq, Structural, Debug)]
pub enum BundleError {
    /// The same (dimensionality, primitive) combination was already
    /// registered on this pipeline.
    DuplicateRegistration,
}

/// The four stage entries a physics bundle inserts: the updater first, then
/// the predictor, collision detection and contact resolution, each
/// depending on the previous one; resolution owns the reader cursor `rid`.
pub open spec fn spec_physics_stages(rid: ReaderId) -> Seq<StageEntry> {
    seq![
        StageEntry { kind: StageKind::CurrentFrameUpdate, dep: None, reader: None },
        StageEntry {
            kind: StageKind::NextFrameSetup,
            dep: Some(StageKind::CurrentFrameUpdate),
            reader: None,
        },
        StageEntry {
            kind: StageKind::Collision,
            dep: Some(StageKind::NextFrameSetup),
            reader: None,
        },
        StageEntry {
            kind: StageKind::ContactResolution,
            dep: Some(StageKind::Collision),
            reader: Some(rid),
        },
    ]
}

/// Register one bundle's schema, reader and stages; shared by the planar
/// and spatial assemblers.
fn build_bundle(
    reg: Registration,
    world: &mut PhysicsWorld,
    dispatcher: DispatcherBuilder,
) -> (r: Result<DispatcherBuilder, BundleError>)
    requires
        old(world).wf(),
    ensures
        final(world).wf(),
        final(world).entities == old(world).entities,
        final(world).channel.events@ == old(world).channel.events@,
        r is Ok <==> !old(world).registrations@.contains(reg),
        r is Err ==> final(world).channel == old(world).channel
            && final(world).registrations@ == old(world).registrations@
            && r == Err::<DispatcherBuilder, BundleError>(BundleError::DuplicateRegistration),
        r is Ok ==> final(world).registrations@ == old(world).registrations@.push(reg),
        r is Ok ==> final(world).channel.cursors@ == old(world).channel.cursors@.push(
            old(world).channel.events@.len() as usize,
        ),
        r is Ok ==> (r->Ok_0).stages@ == dispatcher.stages@ + spec_physics_stages(
            ReaderId { index: old(world).channel.cursors@.len() as usize },
        ),
{
    if !world.register_combination(reg) {
        return Err(BundleError::DuplicateRegistration);
    }
    let reader = world.channel.register_reader();
    let mut d = dispatcher;
    d.stages.push(StageEntry { kind: StageKind::CurrentFrameUpdate, dep: None, reader: None });
    d.stages.push(
        StageEntry {
            kind: StageKind::NextFrameSetup,
            dep: Some(StageKind::CurrentFrameUpdate),
            reader: None,
        },
    );
    d.stages.push(
        StageEntry { kind: StageKind::Collision, dep: Some(StageKind::NextFrameSetup), reader: None },
    );
    d.stages.push(
        StageEntry {
            kind: StageKind::ContactResolution,
            dep: Some(StageKind::Collision),
            reader: Some(reader),
        },
    );
    proof {
        assert(d.stages@ =~= dispatcher.stages@ + spec_physics_stages(reader));
    }
    Ok(d)
}

/// Assembler for planar physics: registers the storage schema for its
/// (planar, primitive) combination, a contact-event reader cursor, and the
/// stage chain updater -> predictor -> collision -> resolution.
pub struct BasicPhysicsBundle2 {
    /// The collision primitive this pipeline variant handles.
    pub primitive: PrimitiveKind,
}

impl BasicPhysicsBundle2 {
    /// Create a new planar bundle for one collision primitive.
    pub fn new(primitive: PrimitiveKind) -> (r: Self)
        ensures
            r.primitive == primitive,
    {
        BasicPhysicsBundle2 { primitive }
    }

    /// Assemble the pipeline: register the schema and the reader cursor and
    /// insert the four stages with their dependency chain. Fails, leaving
    /// the world untouched and constructing nothing, when the same
    /// (planar, primitive) combination is already registered.
    pub fn build(
        self,
        world: &mut PhysicsWorld,
        dispatcher: DispatcherBuilder,
    ) -> (r: Result<DispatcherBuilder, BundleError>)
        requires
            old(world).wf(),
        ensures
            final(world).wf(),
            final(world).entities == old(world).entities,
            final(world).channel.events@ == old(world).channel.events@,
            r is Ok <==> !old(world).registrations@.contains(
                Registration { dim: Dim::Two, primitive: self.primitive },
            ),
            r is Err ==> final(world).channel == old(world).channel
                && final(world).registrations@ == old(world).registrations@
                && r == Err::<DispatcherBuilder, BundleError>(BundleError::DuplicateRegistration),
            r is Ok ==> final(world).registrations@ == old(world).registrations@.push(
                Registration { dim: Dim::Two, primitive: self.primitive },
            ),
            r is Ok ==> final(world).channel.cursors@ == old(world).channel.cursors@.push(
                old(world).channel.events@.len() as usize,
            ),
            r is Ok ==> (r->Ok_0).stages@ == dispatcher.stages@ + spec_physics_stages(
                ReaderId { index: old(world).channel.cursors@.len() as usize },
            ),
    {
        build_bundle(
            Registration { dim: Dim::Two, primitive: self.primitive },
            world,
            dispatcher,
        )
    }
}

/// Assembler for spatial physics: registers the storage schema for its
/// (spatial, primitive) combination, a contact-event reader cursor, and the
/// stage chain updater -> predictor -> collision -> resolution.
pub struct BasicPhysicsBundle3 {
    /// The collision primitive this pipeline variant handles.
    pub primitive: PrimitiveKind,
}

impl BasicPhysicsBundle3 {
    /// Create a new spatial bundle for one collision primitive.
    pub fn new(primitive: PrimitiveKind) -> (r: Self)
        ensures
            r.primitive == primitive,
    {
        BasicPhysicsBundle3 { primitive }
    }

    /// Assemble the pipeline: register the schema and the reader cursor and
    /// insert the four stages with their dependency chain. Fails, leaving
    /// the world untouched and constructing nothing, when the same
    /// (spatial, primitive) combination is already registered.
    pub fn build(
        self,
        world: &mut PhysicsWorld,
        dispatcher: DispatcherBuilder,
    ) -> (r: Result<DispatcherBuilder, BundleError>)
        requires
            old(world).wf(),
        ensures
            final(world).wf(),
            final(world).entities == old(world).entities,
            final(world).channel.events@ == old(world).channel.events@,
            r is Ok <==> !old(world).registrations@.contains(
                Registration { dim: Dim::Three, primitive: self.primitive },
            ),
            r is Err ==> final(world).channel == old(world).channel
                && final(world).registrations@ == old(world).registrations@
                && r == Err::<DispatcherBuilder, BundleError>(BundleError::DuplicateRegistration),
            r is Ok ==> final(world).registrations@ == old(world).registrations@.push(
                Registration { dim: Dim::Three, primitive: self.primitive },
            ),
            r is Ok ==> final(world).channel.cursors@ == old(world).channel.cursors@.push(
                old(world).channel.events@.len() as usize,
            ),
            r is Ok ==> (r->Ok_0).stages@ == dispatcher.stages@ + spec_physics_stages(
                ReaderId { index: old(world).channel.cursors@.len() as usize },
            ),
    {
        build_bundle(
            Registration { dim: Dim::Three, primitive: self.primitive },
            world,
            dispatcher,
        )
    }
}

} // verus!
