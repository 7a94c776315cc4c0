//! What is asked of a single property, at each of the three stages.

use vstd::prelude::*;

verus! {

/// A value that a constraint names.
///
/// The library carries values; it never computes with them. A floating-point number is
/// therefore held by the 64 bits of its binary64 form, and two such values are the same value
/// when their bits are.
#[derive(Debug, PartialEq, Eq)]
pub enum MediaTrackValue {
    Bool(bool),
    Integer(u64),
    Float(u64),
    String(String),
}

impl Clone for MediaTrackValue {
    fn clone(&self) -> (copy: Self)
        ensures
            copy == *self,
    {
        match self {
            MediaTrackValue::Bool(flag) => MediaTrackValue::Bool(*flag),
            MediaTrackValue::Integer(number) => MediaTrackValue::Integer(*number),
            MediaTrackValue::Float(bits) => MediaTrackValue::Float(*bits),
            MediaTrackValue::String(text) => MediaTrackValue::String(text.clone()),
        }
    }
}

fn clone_value(value: &Option<MediaTrackValue>) -> (copy: Option<MediaTrackValue>)
    ensures
        copy == *value,
{
    match value {
        Some(inner) => Some(inner.clone()),
        None => None,
    }
}

/// A structured constraint: up to four demands on one property.
///
/// `exact` is a demand that a device must meet to be acceptable. `ideal`, `min` and `max` say
/// what is preferred; devices are ranked by them, none is excluded.
#[derive(Debug, PartialEq, Eq)]
pub struct ResolvedMediaTrackConstraint {
    pub exact: Option<MediaTrackValue>,
    pub ideal: Option<MediaTrackValue>,
    pub min: Option<MediaTrackValue>,
    pub max: Option<MediaTrackValue>,
}

impl Clone for ResolvedMediaTrackConstraint {
    fn clone(&self) -> (copy: Self)
        ensures
            copy == *self,
    {
        ResolvedMediaTrackConstraint {
            exact: clone_value(&self.exact),
            ideal: clone_value(&self.ideal),
            min: clone_value(&self.min),
            max: clone_value(&self.max),
        }
    }
}

impl ResolvedMediaTrackConstraint {
    /// The constraint that demands nothing.
    pub open spec fn empty() -> Self {
        ResolvedMediaTrackConstraint { exact: None, ideal: None, min: None, max: None }
    }

    /// The constraint that demands exactly `value`, and nothing else.
    pub open spec fn exactly(value: MediaTrackValue) -> Self {
        ResolvedMediaTrackConstraint { exact: Some(value), ideal: None, min: None, max: None }
    }

    /// The constraint that prefers `value`, and demands nothing.
    pub open spec fn ideally(value: MediaTrackValue) -> Self {
        ResolvedMediaTrackConstraint { exact: None, ideal: Some(value), min: None, max: None }
    }

    /// A constraint is required when it holds a demand that excludes devices: an `exact` value.
    pub open spec fn spec_is_required(&self) -> bool {
        self.exact is Some
    }

    /// A constraint is empty when it holds no demand at all.
    pub open spec fn spec_is_empty(&self) -> bool {
        self.exact is None && self.ideal is None && self.min is None && self.max is None
    }

    /// The constraint that demands nothing.
    pub fn new() -> (constraint: Self)
        ensures
            constraint == Self::empty(),
    {
        ResolvedMediaTrackConstraint { exact: None, ideal: None, min: None, max: None }
    }

    /// The constraint that demands exactly `value`, and nothing else.
    pub fn exact_from(value: MediaTrackValue) -> (constraint: Self)
        ensures
            constraint == Self::exactly(value),
    {
        ResolvedMediaTrackConstraint { exact: Some(value), ideal: None, min: None, max: None }
    }

    /// The constraint that prefers `value`, and demands nothing.
    pub fn ideal_from(value: MediaTrackValue) -> (constraint: Self)
        ensures
            constraint == Self::ideally(value),
    {
        ResolvedMediaTrackConstraint { exact: None, ideal: Some(value), min: None, max: None }
    }

    /// Whether a device must meet the constraint to be acceptable.
    #[verifier::when_used_as_spec(spec_is_required)]
    pub fn is_required(&self) -> (required: bool)
        ensures
            required == self.spec_is_required(),
    {
        self.exact.is_some()
    }

    /// Whether the constraint holds no demand at all.
    #[verifier::when_used_as_spec(spec_is_empty)]
    pub fn is_empty(&self) -> (empty: bool)
        ensures
            empty == self.spec_is_empty(),
    {
        self.exact.is_none() && self.ideal.is_none() && self.min.is_none() && self.max.is_none()
    }

    /// The same constraint at the sanitized stage, unless it is empty: an empty constraint has
    /// no sanitized form.
    pub fn into_sanitized(self) -> (sanitized: Option<SanitizedMediaTrackConstraint>)
        ensures
            sanitized == if self.is_empty() {
                None
            } else {
                Some(SanitizedMediaTrackConstraint::of(self))
            },
    {
        if self.is_empty() {
            None
        } else {
            Some(SanitizedMediaTrackConstraint { constraint: self })
        }
    }

    /// The sanitized form of a copy of the constraint, unless it is empty.
    pub fn to_sanitized(&self) -> (sanitized: Option<SanitizedMediaTrackConstraint>)
        ensures
            sanitized == if self.is_empty() {
                None
            } else {
                Some(SanitizedMediaTrackConstraint::of(*self))
            },
    {
        self.clone().into_sanitized()
    }
}

/// A constraint as a request is written: a bare value, or a structured constraint.
#[derive(Debug, PartialEq, Eq)]
pub enum MediaTrackConstraint {
    Bare(MediaTrackValue),
    Constraint(ResolvedMediaTrackConstraint),
}

impl Clone for MediaTrackConstraint {
    fn clone(&self) -> (copy: Self)
        ensures
            copy == *self,
    {
        match self {
            MediaTrackConstraint::Bare(value) => MediaTrackConstraint::Bare(value.clone()),
            MediaTrackConstraint::Constraint(constraint) => MediaTrackConstraint::Constraint(
                constraint.clone(),
            ),
        }
    }
}

impl MediaTrackConstraint {
    /// A constraint is bare when it is a plain value.
    pub open spec fn spec_is_bare(&self) -> bool {
        self is Bare
    }

    /// The structured constraint that `self` stands for: a bare value is a demand for exactly
    /// that value, and a structured constraint stands for itself.
    pub open spec fn resolved(self) -> ResolvedMediaTrackConstraint {
        match self {
            MediaTrackConstraint::Bare(value) => ResolvedMediaTrackConstraint::exactly(value),
            MediaTrackConstraint::Constraint(constraint) => constraint,
        }
    }

    /// Whether the constraint is a plain value.
    #[verifier::when_used_as_spec(spec_is_bare)]
    pub fn is_bare(&self) -> (bare: bool)
        ensures
            bare == self.spec_is_bare(),
    {
        match self {
            MediaTrackConstraint::Bare(_) => true,
            MediaTrackConstraint::Constraint(_) => false,
        }
    }

    /// The structured constraint that the constraint stands for.
    pub fn into_resolved(self) -> (constraint: ResolvedMediaTrackConstraint)
        ensures
            constraint == self.resolved(),
    {
        match self {
            MediaTrackConstraint::Bare(value) => ResolvedMediaTrackConstraint::exact_from(value),
            MediaTrackConstraint::Constraint(constraint) => constraint,
        }
    }

    /// The structured constraint that a copy of the constraint stands for.
    pub fn to_resolved(&self) -> (constraint: ResolvedMediaTrackConstraint)
        ensures
            constraint == self.resolved(),
    {
        self.clone().into_resolved()
    }
}

/// A structured constraint that is known not to be empty.
///
/// Its view is the constraint it holds.
#[derive(Debug, PartialEq, Eq)]
pub struct SanitizedMediaTrackConstraint {
    constraint: ResolvedMediaTrackConstraint,
}

impl View for SanitizedMediaTrackConstraint {
    type V = ResolvedMediaTrackConstraint;

    closed spec fn view(&self) -> ResolvedMediaTrackConstraint {
        self.constraint
    }
}

impl Clone for SanitizedMediaTrackConstraint {
    fn clone(&self) -> (copy: Self)
        ensures
            copy == *self,
    {
        proof {
            use_type_invariant(self);
        }
        SanitizedMediaTrackConstraint { constraint: self.constraint.clone() }
    }
}

impl SanitizedMediaTrackConstraint {
    #[verifier::type_invariant]
    spec fn holds_a_demand(&self) -> bool {
        !self.constraint.is_empty()
    }

    /// The sanitized constraint whose view is `constraint`.
    pub closed spec fn of(constraint: ResolvedMediaTrackConstraint) -> Self {
        SanitizedMediaTrackConstraint { constraint }
    }

    /// A sanitized constraint is required when the constraint it holds is.
    pub open spec fn spec_is_required(&self) -> bool {
        self@.is_required()
    }

    /// A sanitized constraint is the constraint it holds, and nothing besides: `of` and the
    /// view undo each other.
    pub proof fn lemma_of_view(self, constraint: ResolvedMediaTrackConstraint)
        ensures
            Self::of(self@) == self,
            Self::of(constraint)@ == constraint,
    {
    }

    /// The constraint as a structured constraint. It is not empty.
    pub fn as_resolved(&self) -> (constraint: &ResolvedMediaTrackConstraint)
        ensures
            *constraint == self@,
            !constraint.is_empty(),
    {
        proof {
            use_type_invariant(self);
        }
        &self.constraint
    }

    /// The constraint as a structured constraint. It is not empty.
    pub fn into_resolved(self) -> (constraint: ResolvedMediaTrackConstraint)
        ensures
            constraint == self@,
            !constraint.is_empty(),
    {
        proof {
            use_type_invariant(&self);
        }
        self.constraint
    }

    /// Whether a device must meet the constraint to be acceptable.
    #[verifier::when_used_as_spec(spec_is_required)]
    pub fn is_required(&self) -> (required: bool)
        ensures
            required == self.spec_is_required(),
    {
        self.constraint.is_required()
    }
}

} // verus!
