//! Constraints on the tracks of a media stream.
//!
//! A request for a track names properties of the capture device (its id, a resolution, a frame
//! rate) and says of each what is wanted. A request passes through three stages, each a type of
//! its own: as written, where a property may be given a bare value; resolved, where every
//! property holds a structured constraint; and sanitized, where only properties that the
//! platform knows and constraints that demand something are left.
//!
//! Every step from one stage to the next is total: there is no request that cannot be
//! resolved, and no resolved request that cannot be sanitized. What each step gives is stated
//! over plain values, the views of the types: sequences of property names with their
//! constraints.

pub mod constraint;
pub mod constraints;
pub mod property;
pub mod wire;

pub use constraint::{
    MediaTrackConstraint, MediaTrackValue, ResolvedMediaTrackConstraint,
    SanitizedMediaTrackConstraint,
};
pub use constraints::advanced::{
    AdvancedMediaTrackConstraints, GenericAdvancedMediaTrackConstraints,
    ResolvedAdvancedMediaTrackConstraints, SanitizedAdvancedMediaTrackConstraints,
};
pub use constraints::constraint_set::{
    GenericMediaTrackConstraintSet, MediaTrackConstraintSet, ResolvedMediaTrackConstraintSet,
    SanitizedMediaTrackConstraintSet,
};
pub use constraints::mandatory::{
    GenericMandatoryMediaTrackConstraints, MandatoryMediaTrackConstraints,
    ResolvedMandatoryMediaTrackConstraints, SanitizedMandatoryMediaTrackConstraints,
};
pub use constraints::track::{
    should_skip_advanced, BoolOrMediaTrackConstraints, BoolOrResolvedMediaTrackConstraints,
    GenericBoolOrMediaTrackConstraints, GenericMediaTrackConstraints, MediaTrackConstraints,
    ResolvedMediaTrackConstraints, SanitizedMediaTrackConstraints,
};
pub use property::{MediaTrackProperty, MediaTrackSupportedConstraints};
pub use wire::{FlatBoolOrMediaTrackConstraints, FlatMediaTrackConstraints, ADVANCED};
