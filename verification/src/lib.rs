//! A staged rigid-body physics and collision pipeline for a component-based
//! simulation host, together with a bidirectional conversion layer between the
//! host's spatial-transform representation (translation, rotation, scale) and
//! the physics-native pose representation (position, rotation), generic over
//! two and three dimensions.
//!
//! All geometry is carried in signed 64-bit fixed-point scalars (see
//! [`math::ONE`]), so every function here is deterministic integer arithmetic
//! with a proved contract.

pub mod bundle;
pub mod channel;
pub mod math;
pub mod physics;
pub mod sync;
pub mod transform;

pub use bundle::{BasicPhysicsBundle2, BasicPhysicsBundle3};
pub use sync::{AsTransform, Convert};
pub use transform::Transform;
