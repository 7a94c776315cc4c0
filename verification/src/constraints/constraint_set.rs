//! Constraint sets: what is asked of each of a number of properties.

use crate::constraint::{
    MediaTrackConstraint, ResolvedMediaTrackConstraint, SanitizedMediaTrackConstraint,
};
use crate::property::{MediaTrackProperty, MediaTrackSupportedConstraints};
use vstd::prelude::*;

verus! {

/// The entries of a set as plain values: each property by its name.
pub open spec fn entries_view<T>(entries: Seq<(MediaTrackProperty, T)>) -> Seq<(Seq<char>, T)> {
    entries.map_values(|entry: (MediaTrackProperty, T)| (entry.0@, entry.1))
}

/// The property names that occur in `entries`.
pub open spec fn keys_of<T>(entries: Seq<(Seq<char>, T)>) -> Set<Seq<char>> {
    Set::new(|key: Seq<char>| exists|i: int| 0 <= i < entries.len() && entries[i].0 == key)
}

/// No property occurs twice in `entries`.
pub open spec fn distinct_keys<T>(entries: Seq<(Seq<char>, T)>) -> bool {
    forall|i: int, j: int| 0 <= i < j < entries.len() ==> entries[i].0 != entries[j].0
}

/// Where `key` occurs in `entries`. Meaningful only if it does occur.
pub open spec fn position_of<T>(entries: Seq<(Seq<char>, T)>, key: Seq<char>) -> int {
    choose|i: int| 0 <= i < entries.len() && entries[i].0 == key
}

/// `entries` after `key` has been given `value`: in the place where `key` stood, or at the end
/// if it did not occur.
pub open spec fn with_entry<T>(entries: Seq<(Seq<char>, T)>, key: Seq<char>, value: T) -> Seq<
    (Seq<char>, T),
> {
    if keys_of(entries).contains(key) {
        entries.update(position_of(entries, key), (key, value))
    } else {
        entries.push((key, value))
    }
}

/// In a sequence without repeated properties, a property is found where it stands.
pub proof fn lemma_position_of<T>(entries: Seq<(Seq<char>, T)>, index: int)
    requires
        distinct_keys(entries),
        0 <= index < entries.len(),
    ensures
        keys_of(entries).contains(entries[index].0),
        position_of(entries, entries[index].0) == index,
{
    let found = position_of(entries, entries[index].0);
    assert(0 <= found < entries.len() && entries[found].0 == entries[index].0);
    if found < index {
        assert(entries[found].0 != entries[index].0);
    } else if index < found {
        assert(entries[index].0 != entries[found].0);
    }
}

/// The entries of the set that comes of giving each property of `entries` its constraint, one
/// entry after another. A property that occurs more than once stands where it first occurred,
/// with the constraint of its last occurrence.
pub open spec fn collect_entries<T>(entries: Seq<(Seq<char>, T)>) -> Seq<(Seq<char>, T)>
    decreases entries.len(),
{
    if entries.len() == 0 {
        Seq::empty()
    } else {
        with_entry(collect_entries(entries.drop_last()), entries.last().0, entries.last().1)
    }
}

/// Entries with distinct properties are collected as they are.
pub proof fn lemma_collect_distinct_entries<T>(entries: Seq<(Seq<char>, T)>)
    requires
        distinct_keys(entries),
    ensures
        collect_entries(entries) == entries,
    decreases entries.len(),
{
    if entries.len() > 0 {
        let front = entries.drop_last();
        assert forall|a: int, b: int| 0 <= a < b < front.len() implies front[a].0
            != front[b].0 by {
            assert(entries[a].0 != entries[b].0);
        }
        lemma_collect_distinct_entries(front);
        if keys_of(front).contains(entries.last().0) {
            let at = choose|at: int| 0 <= at < front.len() && front[at].0 == entries.last().0;
            assert(entries[at].0 != entries[entries.len() - 1].0);
        }
        assert(front.push(entries.last()) =~= entries);
    } else {
        assert(entries =~= Seq::empty());
    }
}

/// `copy` holds the properties of `source` in the same order, each with a clone of its
/// constraint.
pub open spec fn cloned_entries<T: Clone>(
    source: Seq<(Seq<char>, T)>,
    copy: Seq<(Seq<char>, T)>,
) -> bool {
    &&& copy.len() == source.len()
    &&& forall|i: int|
        0 <= i < source.len() ==> (#[trigger] copy[i]).0 == source[i].0 && cloned::<T>(
            source[i].1,
            copy[i].1,
        )
}

/// Where the clone of a constraint is equal to the constraint, as it is at each of the three
/// stages, cloned entries are equal to the entries they were cloned from.
pub proof fn lemma_cloned_entries_are_equal<T: Clone>(
    source: Seq<(Seq<char>, T)>,
    copy: Seq<(Seq<char>, T)>,
)
    requires
        cloned_entries(source, copy),
        forall|a: T, b: T| #[trigger] cloned::<T>(a, b) ==> a == b,
    ensures
        copy == source,
{
    assert(copy =~= source);
}

/// The entries of a set as written, resolved one by one.
pub open spec fn resolve_entries(entries: Seq<(Seq<char>, MediaTrackConstraint)>) -> Seq<
    (Seq<char>, ResolvedMediaTrackConstraint),
> {
    entries.map_values(|entry: (Seq<char>, MediaTrackConstraint)| (entry.0, entry.1.resolved()))
}

/// What sanitizing does to one entry. It stays, at the sanitized stage, if the platform
/// supports its property and its constraint is not empty; otherwise it goes.
pub open spec fn sanitize_entry(supported: Set<Seq<char>>) -> spec_fn(
    (Seq<char>, ResolvedMediaTrackConstraint),
) -> Option<(Seq<char>, SanitizedMediaTrackConstraint)> {
    |entry: (Seq<char>, ResolvedMediaTrackConstraint)|
        if supported.contains(entry.0) && !entry.1.is_empty() {
            Some((entry.0, SanitizedMediaTrackConstraint::of(entry.1)))
        } else {
            None
        }
}

/// The entries of a resolved set that are left when it is sanitized against `supported`, in
/// their order.
pub open spec fn sanitize_entries(
    entries: Seq<(Seq<char>, ResolvedMediaTrackConstraint)>,
    supported: Set<Seq<char>>,
) -> Seq<(Seq<char>, SanitizedMediaTrackConstraint)> {
    entries.filter_map(sanitize_entry(supported))
}

/// Sanitizing only removes entries. The entries that are left are those whose property is
/// supported and whose constraint is not empty, so every property of the sanitized entries is
/// a supported property of `entries`, and none of their constraints is empty; and properties
/// that were distinct stay distinct.
pub proof fn lemma_sanitize_entries(
    entries: Seq<(Seq<char>, ResolvedMediaTrackConstraint)>,
    supported: Set<Seq<char>>,
)
    ensures
        sanitize_entries(entries, supported).len() <= entries.len(),
        forall|key: Seq<char>|
            keys_of(sanitize_entries(entries, supported)).contains(key) <==> supported.contains(
                key,
            ) && exists|i: int|
                0 <= i < entries.len() && (#[trigger] entries[i]).0 == key
                    && !entries[i].1.is_empty(),
        keys_of(sanitize_entries(entries, supported)).subset_of(
            keys_of(entries).intersect(supported),
        ),
        forall|i: int|
            0 <= i < sanitize_entries(entries, supported).len() ==> !(#[trigger] sanitize_entries(
                entries,
                supported,
            )[i]).1@.is_empty(),
        distinct_keys(entries) ==> distinct_keys(sanitize_entries(entries, supported)),
    decreases entries.len(),
{
    let kept = sanitize_entries(entries, supported);
    if entries.len() > 0 {
        let front = entries.drop_last();
        let last = entries.last();
        let kept_front = sanitize_entries(front, supported);
        lemma_sanitize_entries(front, supported);
        assert forall|i: int| 0 <= i < kept.len() implies !(#[trigger] kept[i]).1@.is_empty() by {
            if i < kept_front.len() {
                assert(kept[i] == kept_front[i]);
            } else {
                kept[i].1.lemma_of_view(last.1);
            }
        }
        assert forall|key: Seq<char>| keys_of(kept).contains(key) implies supported.contains(key)
            && exists|i: int|
            0 <= i < entries.len() && (#[trigger] entries[i]).0 == key
                && !entries[i].1.is_empty() by {
            let at = choose|at: int| 0 <= at < kept.len() && kept[at].0 == key;
            if at < kept_front.len() {
                assert(kept_front[at].0 == key);
                assert(keys_of(kept_front).contains(key));
                let i = choose|i: int|
                    0 <= i < front.len() && (#[trigger] front[i]).0 == key
                        && !front[i].1.is_empty();
                assert(entries[i].0 == key);
            } else {
                assert(entries[entries.len() - 1].0 == key);
            }
        }
        assert forall|key: Seq<char>|
            supported.contains(key) && (exists|i: int|
                0 <= i < entries.len() && (#[trigger] entries[i]).0 == key
                    && !entries[i].1.is_empty()) implies keys_of(kept).contains(key) by {
            let i = choose|i: int|
                0 <= i < entries.len() && (#[trigger] entries[i]).0 == key
                    && !entries[i].1.is_empty();
            if i < front.len() {
                assert(front[i].0 == key);
                assert(keys_of(kept_front).contains(key));
                let at = choose|at: int| 0 <= at < kept_front.len() && kept_front[at].0 == key;
                assert(kept[at].0 == key);
            } else {
                assert(kept[kept.len() - 1].0 == key);
            }
        }
        assert forall|key: Seq<char>| keys_of(kept).contains(key) implies keys_of(
            entries,
        ).intersect(supported).contains(key) by {
            let i = choose|i: int|
                0 <= i < entries.len() && (#[trigger] entries[i]).0 == key
                    && !entries[i].1.is_empty();
            assert(entries[i].0 == key);
        }
        if distinct_keys(entries) {
            assert forall|a: int, b: int| 0 <= a < b < front.len() implies front[a].0
                != front[b].0 by {
                assert(entries[a].0 != entries[b].0);
            }
            assert forall|a: int, b: int| 0 <= a < b < kept.len() implies kept[a].0
                != kept[b].0 by {
                if b < kept_front.len() {
                    assert(kept_front[a].0 != kept_front[b].0);
                } else {
                    assert(kept[b].0 == last.0);
                    assert(kept_front[a].0 == kept[a].0);
                    assert(keys_of(kept_front).contains(kept[a].0));
                    let i = choose|i: int|
                        0 <= i < front.len() && (#[trigger] front[i]).0 == kept[a].0
                            && !front[i].1.is_empty();
                    assert(entries[i].0 != entries[entries.len() - 1].0);
                }
            }
        }
    }
}

/// Filtering only removes entries. The properties that are left are those of the entries that
/// `keep` accepts, and properties that were distinct stay distinct.
pub proof fn lemma_filter_entries<T>(
    entries: Seq<(Seq<char>, T)>,
    keep: spec_fn((Seq<char>, T)) -> bool,
)
    ensures
        forall|key: Seq<char>|
            keys_of(entries.filter(keep)).contains(key) <==> exists|i: int|
                0 <= i < entries.len() && (#[trigger] entries[i]).0 == key && keep(entries[i]),
        distinct_keys(entries) ==> distinct_keys(entries.filter(keep)),
    decreases entries.len(),
{
    let kept = entries.filter(keep);
    if entries.len() == 0 {
        reveal(Seq::filter);
    } else {
        let front = entries.drop_last();
        let last = entries.last();
        let kept_front = front.filter(keep);
        lemma_filter_entries(front, keep);
        assert(entries =~= front.push(last));
        front.lemma_filter_push(last, keep);
        assert forall|key: Seq<char>| keys_of(kept).contains(key) implies exists|i: int|
            0 <= i < entries.len() && (#[trigger] entries[i]).0 == key && keep(entries[i]) by {
            let at = choose|at: int| 0 <= at < kept.len() && kept[at].0 == key;
            if at < kept_front.len() {
                assert(kept_front[at].0 == key);
                assert(keys_of(kept_front).contains(key));
                let i = choose|i: int|
                    0 <= i < front.len() && (#[trigger] front[i]).0 == key && keep(front[i]);
                assert(entries[i].0 == key);
            } else {
                assert(entries[entries.len() - 1].0 == key);
            }
        }
        assert forall|key: Seq<char>|
            (exists|i: int|
                0 <= i < entries.len() && (#[trigger] entries[i]).0 == key && keep(
                    entries[i],
                )) implies keys_of(kept).contains(key) by {
            let i = choose|i: int|
                0 <= i < entries.len() && (#[trigger] entries[i]).0 == key && keep(entries[i]);
            if i < front.len() {
                assert(front[i].0 == key);
                assert(keys_of(kept_front).contains(key));
                let at = choose|at: int| 0 <= at < kept_front.len() && kept_front[at].0 == key;
                assert(kept[at].0 == key);
            } else {
                assert(kept[kept.len() - 1].0 == key);
            }
        }
        if distinct_keys(entries) {
            assert forall|a: int, b: int| 0 <= a < b < front.len() implies front[a].0
                != front[b].0 by {
                assert(entries[a].0 != entries[b].0);
            }
            assert forall|a: int, b: int| 0 <= a < b < kept.len() implies kept[a].0
                != kept[b].0 by {
                if b < kept_front.len() {
                    assert(kept_front[a].0 != kept_front[b].0);
                } else {
                    assert(kept[b].0 == last.0);
                    assert(kept_front[a].0 == kept[a].0);
                    assert(keys_of(kept_front).contains(kept[a].0));
                    let i = choose|i: int|
                        0 <= i < front.len() && (#[trigger] front[i]).0 == kept[a].0 && keep(
                            front[i],
                        );
                    assert(entries[i].0 != entries[entries.len() - 1].0);
                }
            }
        }
    }
}

/// A set of constraints: an ordered list of properties, each with what is asked of it.
///
/// The view of a set is the sequence of its entries, each a property name and a constraint, in
/// the order in which the properties were first inserted. No property occurs twice.
#[derive(Debug, PartialEq, Eq)]
pub struct GenericMediaTrackConstraintSet<T> {
    entries: Vec<(MediaTrackProperty, T)>,
}

/// A constraint set as written: a property may hold a bare value.
pub type MediaTrackConstraintSet = GenericMediaTrackConstraintSet<MediaTrackConstraint>;

/// A constraint set in which every property holds a structured constraint.
pub type ResolvedMediaTrackConstraintSet = GenericMediaTrackConstraintSet<
    ResolvedMediaTrackConstraint,
>;

/// A constraint set in which every property holds a constraint that is not empty.
pub type SanitizedMediaTrackConstraintSet = GenericMediaTrackConstraintSet<
    SanitizedMediaTrackConstraint,
>;

impl<T> View for GenericMediaTrackConstraintSet<T> {
    type V = Seq<(Seq<char>, T)>;

    closed spec fn view(&self) -> Seq<(Seq<char>, T)> {
        entries_view(self.entries@)
    }
}

impl<T> GenericMediaTrackConstraintSet<T> {
    /// What holds of every set: its properties are distinct.
    #[verifier::type_invariant]
    pub open spec fn well_formed(&self) -> bool {
        distinct_keys(self@)
    }

    /// The empty set.
    pub fn new() -> (set: Self)
        ensures
            set@ == Seq::<(Seq<char>, T)>::empty(),
    {
        GenericMediaTrackConstraintSet { entries: Vec::new() }
    }

    /// The number of properties in the set.
    pub fn len(&self) -> (count: usize)
        ensures
            count == self@.len(),
    {
        self.entries.len()
    }

    /// Whether the set holds no property.
    pub fn is_empty(&self) -> (empty: bool)
        ensures
            empty == (self@.len() == 0),
    {
        self.entries.len() == 0
    }

    /// The entry at `index`, counting from the first property inserted, if there is one.
    pub fn entry(&self, index: usize) -> (entry: Option<(&MediaTrackProperty, &T)>)
        ensures
            index >= self@.len() <==> entry is None,
            entry matches Some(found) ==> (found.0@, *found.1) == self@[index as int],
    {
        if index < self.entries.len() {
            let found = &self.entries[index];
            Some((&found.0, &found.1))
        } else {
            None
        }
    }

    /// What is asked of `property`, if the set holds it.
    pub fn get(&self, property: &MediaTrackProperty) -> (found: Option<&T>)
        ensures
            keys_of(self@).contains(property@) <==> found is Some,
            found matches Some(constraint) ==> *constraint == self@[position_of(
                self@,
                property@,
            )].1,
    {
        proof {
            use_type_invariant(self);
        }
        let mut i: usize = 0;
        while i < self.entries.len()
            invariant
                i <= self.entries@.len(),
                distinct_keys(self@),
                forall|k: int| 0 <= k < i ==> self@[k].0 != property@,
            decreases self.entries@.len() - i,
        {
            if self.entries[i].0.same_as(property) {
                proof {
                    lemma_position_of(self@, i as int);
                }
                return Some(&self.entries[i].1);
            }
            i += 1;
        }
        None
    }

    /// Gives `property` the constraint `constraint`. A property that the set already holds
    /// keeps its place and hands back the constraint it had; a new one goes to the end.
    pub fn insert(&mut self, property: MediaTrackProperty, constraint: T) -> (previous: Option<T>)
        ensures
            final(self)@ == with_entry(old(self)@, property@, constraint),
            previous == if keys_of(old(self)@).contains(property@) {
                Some(old(self)@[position_of(old(self)@, property@)].1)
            } else {
                None::<T>
            },
    {
        proof {
            use_type_invariant(&*self);
        }
        let mut entries: Vec<(MediaTrackProperty, T)> = Vec::new();
        std::mem::swap(&mut entries, &mut self.entries);
        let ghost before = entries_view(entries@);
        let mut i: usize = 0;
        while i < entries.len()
            invariant
                i <= entries@.len(),
                before == entries_view(entries@),
                before == old(self)@,
                distinct_keys(before),
                self.entries@.len() == 0,
                forall|k: int| 0 <= k < i ==> before[k].0 != property@,
            decreases entries@.len() - i,
        {
            if entries[i].0.same_as(&property) {
                proof {
                    lemma_position_of(before, i as int);
                }
                entries.push((property, constraint));
                let replaced = entries.swap_remove(i);
                proof {
                    let after = entries_view(entries@);
                    assert(after =~= before.update(i as int, (property@, constraint)));
                    assert forall|a: int, b: int| 0 <= a < b < after.len() implies after[a].0
                        != after[b].0 by {
                        assert(before[a].0 != before[b].0);
                    }
                }
                self.entries = entries;
                return Some(replaced.1);
            }
            i += 1;
        }
        entries.push((property, constraint));
        proof {
            let after = entries_view(entries@);
            assert(after =~= before.push((property@, constraint)));
            assert forall|a: int, b: int| 0 <= a < b < after.len() implies after[a].0
                != after[b].0 by {
                if b < before.len() {
                    assert(before[a].0 != before[b].0);
                }
            }
        }
        self.entries = entries;
        None
    }

    /// The set that comes of inserting `entries` one after another.
    pub fn from_entries(entries: Vec<(MediaTrackProperty, T)>) -> (set: Self)
        ensures
            set@ == collect_entries(entries_view(entries@)),
    {
        let ghost source = entries_view(entries@);
        let mut set = GenericMediaTrackConstraintSet { entries: Vec::new() };
        for entry in it: entries
            invariant
                entries_view(it.seq()) == source,
                set@ == collect_entries(source.take(it.index() as int)),
        {
            proof {
                let next = source.take(it.index() + 1);
                assert(next.drop_last() =~= source.take(it.index() as int));
            }
            let (property, constraint) = entry;
            set.insert(property, constraint);
        }
        assert(source.take(source.len() as int) =~= source);
        set
    }

    /// The entries of the set, in order.
    pub fn into_entries(self) -> (entries: Vec<(MediaTrackProperty, T)>)
        ensures
            entries_view(entries@) == self@,
            distinct_keys(self@),
    {
        proof {
            use_type_invariant(&self);
        }
        self.entries
    }
}

impl<T> Default for GenericMediaTrackConstraintSet<T> {
    /// The empty set.
    fn default() -> (set: Self)
        ensures
            set@ == Seq::<(Seq<char>, T)>::empty(),
    {
        GenericMediaTrackConstraintSet { entries: Vec::new() }
    }
}

impl<T: Clone> Clone for GenericMediaTrackConstraintSet<T> {
    fn clone(&self) -> (copy: Self)
        ensures
            cloned_entries(self@, copy@),
    {
        proof {
            use_type_invariant(self);
        }
        let mut entries: Vec<(MediaTrackProperty, T)> = Vec::new();
        let mut i: usize = 0;
        while i < self.entries.len()
            invariant
                i <= self.entries@.len(),
                entries@.len() == i,
                forall|k: int|
                    0 <= k < i ==> (#[trigger] entries@[k]).0@ == self.entries@[k].0@ && cloned::<T>(
                        self.entries@[k].1,
                        entries@[k].1,
                    ),
            decreases self.entries@.len() - i,
        {
            let entry = &self.entries[i];
            entries.push((entry.0.clone(), entry.1.clone()));
            i += 1;
        }
        proof {
            let copy = entries_view(entries@);
            assert forall|k: int| 0 <= k < self@.len() implies (#[trigger] copy[k]).0 == self@[k].0
                && cloned::<T>(self@[k].1, copy[k].1) by {
                assert(entries@[k].0@ == self.entries@[k].0@);
            }
            assert forall|a: int, b: int| 0 <= a < b < copy.len() implies copy[a].0
                != copy[b].0 by {
                assert(copy[a].0 == self@[a].0 && copy[b].0 == self@[b].0);
                assert(self@[a].0 != self@[b].0);
            }
        }
        GenericMediaTrackConstraintSet { entries }
    }
}

impl MediaTrackConstraintSet {
    /// Resolves every constraint of the set. The properties and their order stay as they are.
    pub fn into_resolved(self) -> (resolved: ResolvedMediaTrackConstraintSet)
        ensures
            resolved@ == resolve_entries(self@),
    {
        proof {
            use_type_invariant(&self);
        }
        let ghost source = self@;
        let mut entries: Vec<(MediaTrackProperty, ResolvedMediaTrackConstraint)> = Vec::new();
        for entry in it: self.entries
            invariant
                entries_view(it.seq()) == source,
                entries@.len() == it.index(),
                forall|k: int|
                    0 <= k < it.index() ==> (#[trigger] entries@[k]).0@ == source[k].0
                        && entries@[k].1 == source[k].1.resolved(),
        {
            let (property, constraint) = entry;
            entries.push((property, constraint.into_resolved()));
        }
        proof {
            let resolved = entries_view(entries@);
            assert(resolved =~= resolve_entries(source));
            assert forall|a: int, b: int| 0 <= a < b < resolved.len() implies resolved[a].0
                != resolved[b].0 by {
                assert(source[a].0 != source[b].0);
            }
        }
        GenericMediaTrackConstraintSet { entries }
    }

    /// Resolves a copy of the set, which itself stays as it is.
    pub fn to_resolved(&self) -> (resolved: ResolvedMediaTrackConstraintSet)
        ensures
            resolved@ == resolve_entries(self@),
    {
        let copy = self.clone();
        assert(copy@ =~= self@);
        copy.into_resolved()
    }
}

impl ResolvedMediaTrackConstraintSet {
    /// Removes what the platform cannot act on: the properties that `supported_constraints`
    /// does not hold, and the constraints that are empty. What is left keeps its order.
    pub fn into_sanitized(self, supported_constraints: &MediaTrackSupportedConstraints) -> (sanitized:
        SanitizedMediaTrackConstraintSet)
        ensures
            sanitized@ == sanitize_entries(self@, supported_constraints@),
    {
        proof {
            use_type_invariant(&self);
        }
        let ghost source = self@;
        let ghost supported = supported_constraints@;
        let mut entries: Vec<(MediaTrackProperty, SanitizedMediaTrackConstraint)> = Vec::new();
        for entry in it: self.entries
            invariant
                entries_view(it.seq()) == source,
                supported == supported_constraints@,
                entries_view(entries@) == sanitize_entries(
                    source.take(it.index() as int),
                    supported,
                ),
        {
            proof {
                source.lemma_filter_map_take_succ(sanitize_entry(supported), it.index() as int);
            }
            let ghost before = entries_view(entries@);
            let (property, constraint) = entry;
            if supported_constraints.contains(&property) {
                match constraint.into_sanitized() {
                    Some(kept) => {
                        entries.push((property, kept));
                        assert(entries_view(entries@) =~= before.push(
                            (property@, SanitizedMediaTrackConstraint::of(constraint)),
                        ));
                    },
                    None => {},
                }
            }
        }
        proof {
            assert(source.take(source.len() as int) =~= source);
            lemma_sanitize_entries(source, supported);
        }
        GenericMediaTrackConstraintSet { entries }
    }

    /// Sanitizes a copy of the set, which itself stays as it is.
    pub fn to_sanitized(&self, supported_constraints: &MediaTrackSupportedConstraints) -> (sanitized:
        SanitizedMediaTrackConstraintSet)
        ensures
            sanitized@ == sanitize_entries(self@, supported_constraints@),
    {
        let copy = self.clone();
        assert(copy@ =~= self@);
        copy.into_sanitized(supported_constraints)
    }
}

} // verus!
