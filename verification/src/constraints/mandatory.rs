//! The mandatory constraints of a request: the one set that every request has.

use crate::constraint::{
    MediaTrackConstraint, ResolvedMediaTrackConstraint, SanitizedMediaTrackConstraint,
};
use crate::constraints::constraint_set::{
    cloned_entries, distinct_keys, resolve_entries, sanitize_entries,
    GenericMediaTrackConstraintSet,
};
use crate::property::MediaTrackSupportedConstraints;
use vstd::prelude::*;

verus! {

/// The baseline of a request: a single constraint set, which may be empty.
///
/// Its view is that of the set it holds.
#[derive(Debug, PartialEq, Eq)]
pub struct GenericMandatoryMediaTrackConstraints<T> {
    set: GenericMediaTrackConstraintSet<T>,
}

/// Mandatory constraints as written.
pub type MandatoryMediaTrackConstraints = GenericMandatoryMediaTrackConstraints<
    MediaTrackConstraint,
>;

/// Mandatory constraints in which every property holds a structured constraint.
pub type ResolvedMandatoryMediaTrackConstraints = GenericMandatoryMediaTrackConstraints<
    ResolvedMediaTrackConstraint,
>;

/// Mandatory constraints in which every property holds a constraint that is not empty.
pub type SanitizedMandatoryMediaTrackConstraints = GenericMandatoryMediaTrackConstraints<
    SanitizedMediaTrackConstraint,
>;

impl<T> View for GenericMandatoryMediaTrackConstraints<T> {
    type V = Seq<(Seq<char>, T)>;

    closed spec fn view(&self) -> Seq<(Seq<char>, T)> {
        self.set@
    }
}

impl<T> GenericMandatoryMediaTrackConstraints<T> {
    /// The mandatory constraints that consist of `set`.
    pub fn new(set: GenericMediaTrackConstraintSet<T>) -> (mandatory: Self)
        ensures
            mandatory@ == set@,
    {
        GenericMandatoryMediaTrackConstraints { set }
    }

    /// The set that the mandatory constraints consist of.
    pub fn into_inner(self) -> (set: GenericMediaTrackConstraintSet<T>)
        ensures
            set@ == self@,
    {
        self.set
    }

    /// The set that the mandatory constraints consist of. Its properties are distinct.
    pub fn as_set(&self) -> (set: &GenericMediaTrackConstraintSet<T>)
        ensures
            set@ == self@,
            distinct_keys(self@),
    {
        proof {
            use_type_invariant(&self.set);
        }
        &self.set
    }

    /// The number of properties that are constrained.
    pub fn len(&self) -> (count: usize)
        ensures
            count == self@.len(),
    {
        self.set.len()
    }

    /// Whether no property is constrained.
    pub fn is_empty(&self) -> (empty: bool)
        ensures
            empty == (self@.len() == 0),
    {
        self.set.is_empty()
    }
}

impl<T> Default for GenericMandatoryMediaTrackConstraints<T> {
    /// Mandatory constraints that constrain nothing.
    fn default() -> (mandatory: Self)
        ensures
            mandatory@ == Seq::<(Seq<char>, T)>::empty(),
    {
        GenericMandatoryMediaTrackConstraints { set: GenericMediaTrackConstraintSet::new() }
    }
}

impl<T: Clone> Clone for GenericMandatoryMediaTrackConstraints<T> {
    fn clone(&self) -> (copy: Self)
        ensures
            cloned_entries(self@, copy@),
    {
        GenericMandatoryMediaTrackConstraints { set: self.set.clone() }
    }
}

impl MandatoryMediaTrackConstraints {
    /// Resolves every constraint. The properties and their order stay as they are.
    pub fn into_resolved(self) -> (resolved: ResolvedMandatoryMediaTrackConstraints)
        ensures
            resolved@ == resolve_entries(self@),
    {
        GenericMandatoryMediaTrackConstraints { set: self.set.into_resolved() }
    }

    /// Resolves a copy of the constraints, which themselves stay as they are.
    pub fn to_resolved(&self) -> (resolved: ResolvedMandatoryMediaTrackConstraints)
        ensures
            resolved@ == resolve_entries(self@),
    {
        GenericMandatoryMediaTrackConstraints { set: self.set.to_resolved() }
    }
}

impl ResolvedMandatoryMediaTrackConstraints {
    /// Removes the properties that the platform does not support and the constraints that are
    /// empty. The result may constrain nothing; it is still there.
    pub fn into_sanitized(self, supported_constraints: &MediaTrackSupportedConstraints) -> (sanitized:
        SanitizedMandatoryMediaTrackConstraints)
        ensures
            sanitized@ == sanitize_entries(self@, supported_constraints@),
    {
        GenericMandatoryMediaTrackConstraints {
            set: self.set.into_sanitized(supported_constraints),
        }
    }

    /// Sanitizes a copy of the constraints, which themselves stay as they are.
    pub fn to_sanitized(&self, supported_constraints: &MediaTrackSupportedConstraints) -> (sanitized:
        SanitizedMandatoryMediaTrackConstraints)
        ensures
            sanitized@ == sanitize_entries(self@, supported_constraints@),
    {
        GenericMandatoryMediaTrackConstraints { set: self.set.to_sanitized(supported_constraints) }
    }
}

} // verus!
