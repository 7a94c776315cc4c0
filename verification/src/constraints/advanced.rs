//! The advanced constraints of a request: alternatives, tried in order.

use crate::constraint::{
    MediaTrackConstraint, ResolvedMediaTrackConstraint, SanitizedMediaTrackConstraint,
};
use crate::constraints::constraint_set::{
    cloned_entries, keys_of, lemma_cloned_entries_are_equal, lemma_sanitize_entries,
    resolve_entries, sanitize_entries, GenericMediaTrackConstraintSet,
};
use crate::property::MediaTrackSupportedConstraints;
use vstd::prelude::*;

verus! {

/// A list of sets as plain values: each set by its entries.
pub open spec fn sets_view<T>(sets: Seq<GenericMediaTrackConstraintSet<T>>) -> Seq<
    Seq<(Seq<char>, T)>,
> {
    sets.map_values(|set: GenericMediaTrackConstraintSet<T>| set@)
}

/// `copy` holds as many sets as `source`, each a clone of the set in its place.
pub open spec fn cloned_sets<T: Clone>(
    source: Seq<Seq<(Seq<char>, T)>>,
    copy: Seq<Seq<(Seq<char>, T)>>,
) -> bool {
    &&& copy.len() == source.len()
    &&& forall|i: int| 0 <= i < source.len() ==> cloned_entries(source[i], #[trigger] copy[i])
}

/// Where the clone of a constraint is equal to the constraint, cloned sets are equal to the
/// sets they were cloned from.
pub proof fn lemma_cloned_sets_are_equal<T: Clone>(
    source: Seq<Seq<(Seq<char>, T)>>,
    copy: Seq<Seq<(Seq<char>, T)>>,
)
    requires
        cloned_sets(source, copy),
        forall|a: T, b: T| #[trigger] cloned::<T>(a, b) ==> a == b,
    ensures
        copy == source,
{
    assert forall|k: int| 0 <= k < source.len() implies copy[k] == source[k] by {
        lemma_cloned_entries_are_equal(source[k], copy[k]);
    }
    assert(copy =~= source);
}

/// The sets of a list as written, resolved one by one.
pub open spec fn resolve_sets(sets: Seq<Seq<(Seq<char>, MediaTrackConstraint)>>) -> Seq<
    Seq<(Seq<char>, ResolvedMediaTrackConstraint)>,
> {
    sets.map_values(|set: Seq<(Seq<char>, MediaTrackConstraint)>| resolve_entries(set))
}

/// What sanitizing does to one set of a list. The set is sanitized; if nothing is left of it,
/// it goes.
pub open spec fn sanitize_set(supported: Set<Seq<char>>) -> spec_fn(
    Seq<(Seq<char>, ResolvedMediaTrackConstraint)>,
) -> Option<Seq<(Seq<char>, SanitizedMediaTrackConstraint)>> {
    |set: Seq<(Seq<char>, ResolvedMediaTrackConstraint)>|
        if sanitize_entries(set, supported).len() > 0 {
            Some(sanitize_entries(set, supported))
        } else {
            None
        }
}

/// The sets of a resolved list that are left when it is sanitized against `supported`, each
/// sanitized, in their order.
pub open spec fn sanitize_sets(
    sets: Seq<Seq<(Seq<char>, ResolvedMediaTrackConstraint)>>,
    supported: Set<Seq<char>>,
) -> Seq<Seq<(Seq<char>, SanitizedMediaTrackConstraint)>> {
    sets.filter_map(sanitize_set(supported))
}

/// A set none of whose properties is supported has nothing left when it is sanitized.
pub proof fn lemma_unsupported_entries_vanish(
    set: Seq<(Seq<char>, ResolvedMediaTrackConstraint)>,
    supported: Set<Seq<char>>,
)
    requires
        keys_of(set).disjoint(supported),
    ensures
        sanitize_entries(set, supported) == Seq::<
            (Seq<char>, SanitizedMediaTrackConstraint),
        >::empty(),
{
    let kept = sanitize_entries(set, supported);
    lemma_sanitize_entries(set, supported);
    if kept.len() > 0 {
        assert(keys_of(kept).contains(kept[0].0));
        assert(keys_of(set).intersect(supported).contains(kept[0].0));
    }
    assert(kept =~= Seq::empty());
}

/// Sanitizing a list of sets only removes sets, and leaves no set without a property.
pub proof fn lemma_sanitize_sets(
    sets: Seq<Seq<(Seq<char>, ResolvedMediaTrackConstraint)>>,
    supported: Set<Seq<char>>,
)
    ensures
        sanitize_sets(sets, supported).len() <= sets.len(),
        forall|i: int|
            0 <= i < sanitize_sets(sets, supported).len() ==> (#[trigger] sanitize_sets(
                sets,
                supported,
            )[i]).len() > 0,
    decreases sets.len(),
{
    if sets.len() > 0 {
        lemma_sanitize_sets(sets.drop_last(), supported);
    }
}

/// The alternatives of a request: constraint sets, the one to try first standing first.
///
/// Its view is the sequence of the views of its sets. The list may be empty.
#[derive(Debug, PartialEq, Eq)]
pub struct GenericAdvancedMediaTrackConstraints<T> {
    sets: Vec<GenericMediaTrackConstraintSet<T>>,
}

/// Advanced constraints as written.
pub type AdvancedMediaTrackConstraints = GenericAdvancedMediaTrackConstraints<
    MediaTrackConstraint,
>;

/// Advanced constraints in which every property holds a structured constraint.
pub type ResolvedAdvancedMediaTrackConstraints = GenericAdvancedMediaTrackConstraints<
    ResolvedMediaTrackConstraint,
>;

/// Advanced constraints in which every set holds a property, and every property a constraint
/// that is not empty.
pub type SanitizedAdvancedMediaTrackConstraints = GenericAdvancedMediaTrackConstraints<
    SanitizedMediaTrackConstraint,
>;

impl<T> View for GenericAdvancedMediaTrackConstraints<T> {
    type V = Seq<Seq<(Seq<char>, T)>>;

    closed spec fn view(&self) -> Seq<Seq<(Seq<char>, T)>> {
        sets_view(self.sets@)
    }
}

impl<T> GenericAdvancedMediaTrackConstraints<T> {
    /// The advanced constraints that consist of `sets`, in their order.
    pub fn new(sets: Vec<GenericMediaTrackConstraintSet<T>>) -> (advanced: Self)
        ensures
            advanced@ == sets_view(sets@),
    {
        GenericAdvancedMediaTrackConstraints { sets }
    }

    /// The sets that the advanced constraints consist of, in their order.
    pub fn into_inner(self) -> (sets: Vec<GenericMediaTrackConstraintSet<T>>)
        ensures
            sets_view(sets@) == self@,
    {
        self.sets
    }

    /// The number of alternatives.
    pub fn len(&self) -> (count: usize)
        ensures
            count == self@.len(),
    {
        self.sets.len()
    }

    /// Whether there is no alternative.
    pub fn is_empty(&self) -> (empty: bool)
        ensures
            empty == (self@.len() == 0),
    {
        self.sets.len() == 0
    }

    /// The alternative at `index`, counting from the one to try first, if there is one.
    pub fn get(&self, index: usize) -> (found: Option<&GenericMediaTrackConstraintSet<T>>)
        ensures
            index >= self@.len() <==> found is None,
            found matches Some(set) ==> set@ == self@[index as int],
    {
        if index < self.sets.len() {
            Some(&self.sets[index])
        } else {
            None
        }
    }
}

impl<T> Default for GenericAdvancedMediaTrackConstraints<T> {
    /// Advanced constraints without any alternative.
    fn default() -> (advanced: Self)
        ensures
            advanced@ == Seq::<Seq<(Seq<char>, T)>>::empty(),
    {
        GenericAdvancedMediaTrackConstraints { sets: Vec::new() }
    }
}

impl<T: Clone> Clone for GenericAdvancedMediaTrackConstraints<T> {
    fn clone(&self) -> (copy: Self)
        ensures
            cloned_sets(self@, copy@),
    {
        let mut sets: Vec<GenericMediaTrackConstraintSet<T>> = Vec::new();
        let mut i: usize = 0;
        while i < self.sets.len()
            invariant
                i <= self.sets@.len(),
                sets@.len() == i,
                forall|k: int| 0 <= k < i ==> cloned_entries(self.sets@[k]@, (#[trigger] sets@[k])@),
            decreases self.sets@.len() - i,
        {
            sets.push(self.sets[i].clone());
            i += 1;
        }
        proof {
            let copy = sets_view(sets@);
            assert forall|k: int| 0 <= k < self@.len() implies cloned_entries(
                self@[k],
                #[trigger] copy[k],
            ) by {
                assert(cloned_entries(self.sets@[k]@, sets@[k]@));
            }
        }
        GenericAdvancedMediaTrackConstraints { sets }
    }
}

impl AdvancedMediaTrackConstraints {
    /// Resolves every constraint of every set. The sets, their order and their properties stay
    /// as they are.
    pub fn into_resolved(self) -> (resolved: ResolvedAdvancedMediaTrackConstraints)
        ensures
            resolved@ == resolve_sets(self@),
    {
        let ghost source = self@;
        let mut sets: Vec<GenericMediaTrackConstraintSet<ResolvedMediaTrackConstraint>> =
            Vec::new();
        for set in it: self.sets
            invariant
                sets_view(it.seq()) == source,
                sets@.len() == it.index(),
                forall|k: int|
                    0 <= k < it.index() ==> (#[trigger] sets@[k])@ == resolve_entries(source[k]),
        {
            sets.push(set.into_resolved());
        }
        assert(sets_view(sets@) =~= resolve_sets(source));
        GenericAdvancedMediaTrackConstraints { sets }
    }

    /// Resolves a copy of the constraints, which themselves stay as they are.
    pub fn to_resolved(&self) -> (resolved: ResolvedAdvancedMediaTrackConstraints)
        ensures
            resolved@ == resolve_sets(self@),
    {
        let copy = self.clone();
        proof {
            lemma_cloned_sets_are_equal(self@, copy@);
        }
        copy.into_resolved()
    }
}

impl ResolvedAdvancedMediaTrackConstraints {
    /// Sanitizes every set against `supported_constraints`, and removes the sets of which
    /// nothing is left. The sets that stay keep their order.
    pub fn into_sanitized(self, supported_constraints: &MediaTrackSupportedConstraints) -> (sanitized:
        SanitizedAdvancedMediaTrackConstraints)
        ensures
            sanitized@ == sanitize_sets(self@, supported_constraints@),
    {
        let ghost source = self@;
        let ghost supported = supported_constraints@;
        let mut sets: Vec<GenericMediaTrackConstraintSet<SanitizedMediaTrackConstraint>> =
            Vec::new();
        for set in it: self.sets
            invariant
                sets_view(it.seq()) == source,
                supported == supported_constraints@,
                sets_view(sets@) == sanitize_sets(source.take(it.index() as int), supported),
        {
            proof {
                source.lemma_filter_map_take_succ(sanitize_set(supported), it.index() as int);
            }
            let ghost before = sets_view(sets@);
            let kept = set.into_sanitized(supported_constraints);
            if !kept.is_empty() {
                sets.push(kept);
                assert(sets_view(sets@) =~= before.push(kept@));
            }
        }
        assert(source.take(source.len() as int) =~= source);
        GenericAdvancedMediaTrackConstraints { sets }
    }

    /// Sanitizes a copy of the constraints, which themselves stay as they are.
    pub fn to_sanitized(&self, supported_constraints: &MediaTrackSupportedConstraints) -> (sanitized:
        SanitizedAdvancedMediaTrackConstraints)
        ensures
            sanitized@ == sanitize_sets(self@, supported_constraints@),
    {
        let copy = self.clone();
        proof {
            lemma_cloned_sets_are_equal(self@, copy@);
        }
        copy.into_sanitized(supported_constraints)
    }
}

} // verus!
