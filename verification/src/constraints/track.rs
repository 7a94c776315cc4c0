//! The constraints of one track, and the choice between them and a plain on/off flag.

use crate::constraint::{
    MediaTrackConstraint, ResolvedMediaTrackConstraint, SanitizedMediaTrackConstraint,
};
use crate::constraints::advanced::{
    cloned_sets, lemma_cloned_sets_are_equal, lemma_unsupported_entries_vanish, resolve_sets,
    sanitize_set, sanitize_sets, GenericAdvancedMediaTrackConstraints,
};
use crate::constraints::constraint_set::{
    cloned_entries, distinct_keys, keys_of, lemma_cloned_entries_are_equal, lemma_filter_entries,
    lemma_sanitize_entries, resolve_entries, sanitize_entries, GenericMediaTrackConstraintSet,
};
use crate::constraints::mandatory::GenericMandatoryMediaTrackConstraints;
use crate::property::MediaTrackSupportedConstraints;
use vstd::prelude::*;

verus! {

/// The constraints of a track as plain values.
pub struct TrackConstraintsView<T> {
    /// The entries of the mandatory set, in order.
    pub mandatory: Seq<(Seq<char>, T)>,
    /// The advanced sets, the one to try first standing first, each by its entries.
    pub advanced: Seq<Seq<(Seq<char>, T)>>,
}

/// A flag or the constraints of a track, as plain values.
pub enum BoolOrConstraintsView<T> {
    Bool(bool),
    Constraints(TrackConstraintsView<T>),
}

/// The constraints that constrain nothing: no mandatory property, no advanced set.
pub open spec fn no_constraints<T>() -> TrackConstraintsView<T> {
    TrackConstraintsView { mandatory: Seq::empty(), advanced: Seq::empty() }
}

/// `copy` is made of clones of what `source` is made of, everything in its place.
pub open spec fn cloned_constraints<T: Clone>(
    source: TrackConstraintsView<T>,
    copy: TrackConstraintsView<T>,
) -> bool {
    cloned_entries(source.mandatory, copy.mandatory) && cloned_sets(
        source.advanced,
        copy.advanced,
    )
}

/// The constraints of a track as written, resolved part by part.
pub open spec fn resolve_constraints(
    constraints: TrackConstraintsView<MediaTrackConstraint>,
) -> TrackConstraintsView<ResolvedMediaTrackConstraint> {
    TrackConstraintsView {
        mandatory: resolve_entries(constraints.mandatory),
        advanced: resolve_sets(constraints.advanced),
    }
}

/// A flag stays the flag it is; constraints are resolved.
pub open spec fn resolve_bool_or_constraints(
    selector: BoolOrConstraintsView<MediaTrackConstraint>,
) -> BoolOrConstraintsView<ResolvedMediaTrackConstraint> {
    match selector {
        BoolOrConstraintsView::Bool(flag) => BoolOrConstraintsView::Bool(flag),
        BoolOrConstraintsView::Constraints(constraints) => BoolOrConstraintsView::Constraints(
            resolve_constraints(constraints),
        ),
    }
}

/// Resolved constraints sanitized against `supported`, part by part. The mandatory set is
/// sanitized and stays, even with nothing in it; an advanced set with nothing left in it goes.
pub open spec fn sanitize_constraints(
    constraints: TrackConstraintsView<ResolvedMediaTrackConstraint>,
    supported: Set<Seq<char>>,
) -> TrackConstraintsView<SanitizedMediaTrackConstraint> {
    TrackConstraintsView {
        mandatory: sanitize_entries(constraints.mandatory, supported),
        advanced: sanitize_sets(constraints.advanced, supported),
    }
}

/// Accepts the entries whose constraint is required, if `required`, and those whose constraint
/// is not, otherwise.
pub open spec fn demand_is(required: bool) -> spec_fn(
    (Seq<char>, ResolvedMediaTrackConstraint),
) -> bool {
    |entry: (Seq<char>, ResolvedMediaTrackConstraint)| entry.1.is_required() == required
}

/// The entries that a device must meet, in their order.
pub open spec fn required_entries(
    mandatory: Seq<(Seq<char>, ResolvedMediaTrackConstraint)>,
) -> Seq<(Seq<char>, ResolvedMediaTrackConstraint)> {
    mandatory.filter(demand_is(true))
}

/// The entries that devices are only ranked by, in their order.
pub open spec fn basic_entries(
    mandatory: Seq<(Seq<char>, ResolvedMediaTrackConstraint)>,
) -> Seq<(Seq<char>, ResolvedMediaTrackConstraint)> {
    mandatory.filter(demand_is(false))
}

/// A boolean on/off flag or bare values or constraints for a track.
pub type BoolOrMediaTrackConstraints = GenericBoolOrMediaTrackConstraints<MediaTrackConstraint>;

/// A boolean on/off flag or constraints for a track.
pub type BoolOrResolvedMediaTrackConstraints = GenericBoolOrMediaTrackConstraints<
    ResolvedMediaTrackConstraint,
>;

/// A boolean on/off flag or constraints for a track.
///
/// `Bool(false)` asks for no track, `Bool(true)` for a track of any kind, and `Constraints`
/// for a track that fits.
#[derive(Debug, PartialEq, Eq)]
pub enum GenericBoolOrMediaTrackConstraints<T> {
    /// Boolean track selector.
    Bool(bool),
    /// Constraints-based track selector.
    Constraints(GenericMediaTrackConstraints<T>),
}

impl<T> View for GenericBoolOrMediaTrackConstraints<T> {
    type V = BoolOrConstraintsView<T>;

    open spec fn view(&self) -> BoolOrConstraintsView<T> {
        match self {
            GenericBoolOrMediaTrackConstraints::Bool(flag) => BoolOrConstraintsView::Bool(*flag),
            GenericBoolOrMediaTrackConstraints::Constraints(constraints) => {
                BoolOrConstraintsView::Constraints(constraints@)
            },
        }
    }
}

impl<T: Clone> Clone for GenericBoolOrMediaTrackConstraints<T> {
    fn clone(&self) -> (copy: Self)
        ensures
            match *self {
                GenericBoolOrMediaTrackConstraints::Bool(flag) => copy
                    == GenericBoolOrMediaTrackConstraints::<T>::Bool(flag),
                GenericBoolOrMediaTrackConstraints::Constraints(constraints) => copy matches GenericBoolOrMediaTrackConstraints::Constraints(
                    copied,
                ) && cloned_constraints(constraints@, copied@),
            },
    {
        match self {
            GenericBoolOrMediaTrackConstraints::Bool(flag) => {
                GenericBoolOrMediaTrackConstraints::Bool(*flag)
            },
            GenericBoolOrMediaTrackConstraints::Constraints(constraints) => {
                GenericBoolOrMediaTrackConstraints::Constraints(constraints.clone())
            },
        }
    }
}

impl<T> GenericBoolOrMediaTrackConstraints<T> where T: Clone {
    /// The constraints that a copy of the selector stands for; see `into_constraints`.
    pub fn to_constraints(&self) -> (constraints: Option<GenericMediaTrackConstraints<T>>)
        ensures
            match *self {
                GenericBoolOrMediaTrackConstraints::Bool(flag) => if flag {
                    constraints matches Some(any) && any@ == no_constraints::<T>()
                } else {
                    constraints is None
                },
                GenericBoolOrMediaTrackConstraints::Constraints(given) => constraints matches Some(
                    copied,
                ) && cloned_constraints(given@, copied@),
            },
    {
        self.clone().into_constraints()
    }

    /// The constraints that the selector stands for: none for `false`, constraints that
    /// constrain nothing for `true`, and otherwise the constraints it holds.
    pub fn into_constraints(self) -> (constraints: Option<GenericMediaTrackConstraints<T>>)
        ensures
            match self {
                GenericBoolOrMediaTrackConstraints::Bool(flag) => if flag {
                    constraints matches Some(any) && any@ == no_constraints::<T>()
                } else {
                    constraints is None
                },
                GenericBoolOrMediaTrackConstraints::Constraints(given) => constraints == Some(
                    given,
                ),
            },
    {
        match self {
            GenericBoolOrMediaTrackConstraints::Bool(false) => None,
            GenericBoolOrMediaTrackConstraints::Bool(true) => Some(
                GenericMediaTrackConstraints::default(),
            ),
            GenericBoolOrMediaTrackConstraints::Constraints(constraints) => Some(constraints),
        }
    }
}

impl<T> Default for GenericBoolOrMediaTrackConstraints<T> {
    /// The selector that asks for no track.
    fn default() -> (selector: Self)
        ensures
            selector == GenericBoolOrMediaTrackConstraints::<T>::Bool(false),
    {
        GenericBoolOrMediaTrackConstraints::Bool(false)
    }
}

impl<T> From<bool> for GenericBoolOrMediaTrackConstraints<T> {
    fn from(flag: bool) -> (selector: Self) {
        GenericBoolOrMediaTrackConstraints::Bool(flag)
    }
}

impl<T> vstd::std_specs::convert::FromSpecImpl<bool> for GenericBoolOrMediaTrackConstraints<T> {
    open spec fn obeys_from_spec() -> bool {
        true
    }

    open spec fn from_spec(flag: bool) -> Self {
        GenericBoolOrMediaTrackConstraints::Bool(flag)
    }
}

impl<T> From<GenericMediaTrackConstraints<T>> for GenericBoolOrMediaTrackConstraints<T> {
    fn from(constraints: GenericMediaTrackConstraints<T>) -> (selector: Self) {
        GenericBoolOrMediaTrackConstraints::Constraints(constraints)
    }
}

impl<T> vstd::std_specs::convert::FromSpecImpl<GenericMediaTrackConstraints<T>> for GenericBoolOrMediaTrackConstraints<T> {
    open spec fn obeys_from_spec() -> bool {
        true
    }

    open spec fn from_spec(constraints: GenericMediaTrackConstraints<T>) -> Self {
        GenericBoolOrMediaTrackConstraints::Constraints(constraints)
    }
}

impl BoolOrMediaTrackConstraints {
    /// Resolves a copy of the selector, which itself stays as it is.
    pub fn to_resolved(&self) -> (resolved: BoolOrResolvedMediaTrackConstraints)
        ensures
            resolved@ == resolve_bool_or_constraints(self@),
    {
        let copy = self.clone();
        proof {
            if self is Constraints {
                lemma_cloned_constraints_are_equal(self->Constraints_0@, copy->Constraints_0@);
            }
        }
        copy.into_resolved()
    }

    /// Resolves the selector: a flag stays the flag it is, and constraints are resolved.
    pub fn into_resolved(self) -> (resolved: BoolOrResolvedMediaTrackConstraints)
        ensures
            resolved@ == resolve_bool_or_constraints(self@),
    {
        match self {
            GenericBoolOrMediaTrackConstraints::Bool(flag) => {
                GenericBoolOrMediaTrackConstraints::Bool(flag)
            },
            GenericBoolOrMediaTrackConstraints::Constraints(constraints) => {
                GenericBoolOrMediaTrackConstraints::Constraints(constraints.into_resolved())
            },
        }
    }
}

/// Media track constraints that contain either bare values or constraints.
pub type MediaTrackConstraints = GenericMediaTrackConstraints<MediaTrackConstraint>;

/// Media track constraints that contain only constraints (both empty and non-empty).
pub type ResolvedMediaTrackConstraints = GenericMediaTrackConstraints<
    ResolvedMediaTrackConstraint,
>;

/// Media track constraints that contain only non-empty constraints.
pub type SanitizedMediaTrackConstraints = GenericMediaTrackConstraints<
    SanitizedMediaTrackConstraint,
>;

/// The constraints for a track: one mandatory set, and any number of advanced sets.
#[derive(Debug, PartialEq, Eq)]
pub struct GenericMediaTrackConstraints<T> {
    /// Mandatory (i.e. required or optional basic) constraints.
    pub mandatory: GenericMandatoryMediaTrackConstraints<T>,
    /// Advanced constraints.
    pub advanced: GenericAdvancedMediaTrackConstraints<T>,
}

impl<T> View for GenericMediaTrackConstraints<T> {
    type V = TrackConstraintsView<T>;

    open spec fn view(&self) -> TrackConstraintsView<T> {
        TrackConstraintsView { mandatory: self.mandatory@, advanced: self.advanced@ }
    }
}

impl<T: Clone> Clone for GenericMediaTrackConstraints<T> {
    fn clone(&self) -> (copy: Self)
        ensures
            cloned_constraints(self@, copy@),
    {
        GenericMediaTrackConstraints {
            mandatory: self.mandatory.clone(),
            advanced: self.advanced.clone(),
        }
    }
}

/// Whether the advanced constraints are left out when constraints are written down: they are
/// when there is none.
pub fn should_skip_advanced<T>(advanced: &GenericAdvancedMediaTrackConstraints<T>) -> (skip: bool)
    ensures
        skip == (advanced@.len() == 0),
{
    advanced.is_empty()
}

impl<T> GenericMediaTrackConstraints<T> {
    /// The constraints that consist of `mandatory` and `advanced`.
    pub fn new(
        mandatory: GenericMandatoryMediaTrackConstraints<T>,
        advanced: GenericAdvancedMediaTrackConstraints<T>,
    ) -> (constraints: Self)
        ensures
            constraints.mandatory == mandatory,
            constraints.advanced == advanced,
    {
        Self { mandatory, advanced }
    }
}

impl GenericMediaTrackConstraints<ResolvedMediaTrackConstraint> {
    /// The mandatory constraints that devices are only ranked by, in their order.
    pub fn basic(&self) -> (set: GenericMediaTrackConstraintSet<ResolvedMediaTrackConstraint>)
        ensures
            set@ == basic_entries(self@.mandatory),
    {
        self.basic_or_required(false)
    }

    /// The mandatory constraints that a device must meet, in their order.
    pub fn required(&self) -> (set: GenericMediaTrackConstraintSet<ResolvedMediaTrackConstraint>)
        ensures
            set@ == required_entries(self@.mandatory),
    {
        self.basic_or_required(true)
    }

    fn basic_or_required(&self, required: bool) -> (set: GenericMediaTrackConstraintSet<
        ResolvedMediaTrackConstraint,
    >)
        ensures
            set@ == self@.mandatory.filter(demand_is(required)),
    {
        let source = self.mandatory.as_set();
        let mut set: GenericMediaTrackConstraintSet<ResolvedMediaTrackConstraint> =
            GenericMediaTrackConstraintSet::new();
        let mut i: usize = 0;
        proof {
            reveal(Seq::filter);
        }
        while i < source.len()
            invariant
                i <= source@.len(),
                distinct_keys(source@),
                set@ == source@.take(i as int).filter(demand_is(required)),
            decreases source@.len() - i,
        {
            let ghost seen = source@.take(i as int);
            proof {
                assert(source@.take(i + 1) =~= seen.push(source@[i as int]));
                seen.lemma_filter_push(source@[i as int], demand_is(required));
                lemma_filter_entries(seen, demand_is(required));
            }
            match source.entry(i) {
                Some((property, constraint)) => {
                    if constraint.is_required() == required {
                        proof {
                            if keys_of(set@).contains(property@) {
                                let at = choose|at: int|
                                    0 <= at < seen.len() && (#[trigger] seen[at]).0 == property@
                                        && demand_is(required)(seen[at]);
                                assert(source@[at].0 != source@[i as int].0);
                            }
                        }
                        set.insert(property.clone(), constraint.clone());
                    }
                },
                None => {},
            }
            i += 1;
        }
        assert(source@.take(i as int) =~= source@);
        set
    }
}

impl<T> Default for GenericMediaTrackConstraints<T> {
    /// The constraints that constrain nothing.
    fn default() -> (constraints: Self)
        ensures
            constraints@ == no_constraints::<T>(),
    {
        Self { mandatory: Default::default(), advanced: Default::default() }
    }
}

impl From<MediaTrackConstraints> for ResolvedMediaTrackConstraints {
    fn from(constraints: MediaTrackConstraints) -> (resolved: Self)
        ensures
            resolved@ == resolve_constraints(constraints@),
    {
        constraints.into_resolved()
    }
}

impl vstd::std_specs::convert::FromSpecImpl<MediaTrackConstraints> for ResolvedMediaTrackConstraints {
    open spec fn obeys_from_spec() -> bool {
        false
    }

    open spec fn from_spec(constraints: MediaTrackConstraints) -> Self {
        arbitrary()
    }
}

impl MediaTrackConstraints {
    /// Resolves a copy of the constraints, which themselves stay as they are.
    pub fn to_resolved(&self) -> (resolved: ResolvedMediaTrackConstraints)
        ensures
            resolved@ == resolve_constraints(self@),
    {
        let copy = self.clone();
        proof {
            lemma_cloned_constraints_are_equal(self@, copy@);
        }
        copy.into_resolved()
    }

    /// Resolves the constraints: every bare value becomes a demand for exactly that value. The
    /// sets, their order and their properties stay as they are.
    pub fn into_resolved(self) -> (resolved: ResolvedMediaTrackConstraints)
        ensures
            resolved@ == resolve_constraints(self@),
    {
        let Self { mandatory, advanced } = self;
        ResolvedMediaTrackConstraints {
            mandatory: mandatory.into_resolved(),
            advanced: advanced.into_resolved(),
        }
    }
}

impl ResolvedMediaTrackConstraints {
    /// Sanitizes a copy of the constraints, which themselves stay as they are.
    pub fn to_sanitized(&self, supported_constraints: &MediaTrackSupportedConstraints) -> (sanitized:
        SanitizedMediaTrackConstraints)
        ensures
            sanitized@ == sanitize_constraints(self@, supported_constraints@),
            keys_of(sanitized@.mandatory).subset_of(
                keys_of(self@.mandatory).intersect(supported_constraints@),
            ),
    {
        let copy = self.clone();
        proof {
            lemma_cloned_constraints_are_equal(self@, copy@);
        }
        copy.into_sanitized(supported_constraints)
    }

    /// Sanitizes the constraints against what the platform supports. Of every set, the
    /// properties that the platform does not support and the constraints that are empty are
    /// removed. An advanced set of which nothing is left is removed too; the mandatory set
    /// stays, even with nothing in it.
    pub fn into_sanitized(self, supported_constraints: &MediaTrackSupportedConstraints) -> (sanitized:
        SanitizedMediaTrackConstraints)
        ensures
            sanitized@ == sanitize_constraints(self@, supported_constraints@),
            keys_of(sanitized@.mandatory).subset_of(
                keys_of(self@.mandatory).intersect(supported_constraints@),
            ),
    {
        proof {
            lemma_sanitize_entries(self@.mandatory, supported_constraints@);
        }
        let mandatory = self.mandatory.into_sanitized(supported_constraints);
        let advanced = self.advanced.into_sanitized(supported_constraints);
        SanitizedMediaTrackConstraints { mandatory, advanced }
    }
}

/// Resolved entries seen as entries as written: each constraint as the structured constraint
/// that it is.
pub open spec fn structured_entries(
    entries: Seq<(Seq<char>, ResolvedMediaTrackConstraint)>,
) -> Seq<(Seq<char>, MediaTrackConstraint)> {
    entries.map_values(
        |entry: (Seq<char>, ResolvedMediaTrackConstraint)|
            (entry.0, MediaTrackConstraint::Constraint(entry.1)),
    )
}

/// Resolved constraints seen as constraints as written.
pub open spec fn structured_constraints(
    constraints: TrackConstraintsView<ResolvedMediaTrackConstraint>,
) -> TrackConstraintsView<MediaTrackConstraint> {
    TrackConstraintsView {
        mandatory: structured_entries(constraints.mandatory),
        advanced: constraints.advanced.map_values(
            |set: Seq<(Seq<char>, ResolvedMediaTrackConstraint)>| structured_entries(set),
        ),
    }
}

/// A resolved selector seen as a selector as written.
pub open spec fn structured_bool_or_constraints(
    selector: BoolOrConstraintsView<ResolvedMediaTrackConstraint>,
) -> BoolOrConstraintsView<MediaTrackConstraint> {
    match selector {
        BoolOrConstraintsView::Bool(flag) => BoolOrConstraintsView::Bool(flag),
        BoolOrConstraintsView::Constraints(constraints) => BoolOrConstraintsView::Constraints(
            structured_constraints(constraints),
        ),
    }
}

/// No property of `constraints`, mandatory or advanced, holds a bare value.
pub open spec fn holds_no_bare_value(
    constraints: TrackConstraintsView<MediaTrackConstraint>,
) -> bool {
    &&& forall|i: int|
        0 <= i < constraints.mandatory.len() ==> !(#[trigger] constraints.mandatory[i]).1.is_bare()
    &&& forall|i: int, j: int|
        0 <= i < constraints.advanced.len() && 0 <= j < constraints.advanced[i].len() ==> !(
        #[trigger] constraints.advanced[i][j]).1.is_bare()
}

/// Resolving leaves structured constraints as they are: constraints without a bare value
/// resolve to themselves, and what has been resolved resolves to itself.
pub proof fn lemma_resolving_structured_constraints(
    written: TrackConstraintsView<MediaTrackConstraint>,
    resolved: TrackConstraintsView<ResolvedMediaTrackConstraint>,
)
    ensures
        holds_no_bare_value(written) ==> structured_constraints(resolve_constraints(written))
            == written,
        resolve_constraints(structured_constraints(resolved)) == resolved,
        resolve_constraints(structured_constraints(resolve_constraints(written)))
            == resolve_constraints(written),
{
    let again = resolve_constraints(structured_constraints(resolved));
    assert(again.mandatory =~= resolved.mandatory);
    assert forall|i: int| 0 <= i < resolved.advanced.len() implies again.advanced[i]
        == resolved.advanced[i] by {
        assert(again.advanced[i] =~= resolved.advanced[i]);
    }
    assert(again.advanced =~= resolved.advanced);
    let twice = resolve_constraints(structured_constraints(resolve_constraints(written)));
    let once = resolve_constraints(written);
    assert(twice.mandatory =~= once.mandatory);
    assert forall|i: int| 0 <= i < once.advanced.len() implies twice.advanced[i]
        == once.advanced[i] by {
        assert(twice.advanced[i] =~= once.advanced[i]);
    }
    assert(twice.advanced =~= once.advanced);
    if holds_no_bare_value(written) {
        let back = structured_constraints(resolve_constraints(written));
        assert forall|i: int| 0 <= i < written.mandatory.len() implies back.mandatory[i]
            == written.mandatory[i] by {
            assert(!written.mandatory[i].1.is_bare());
        }
        assert(back.mandatory =~= written.mandatory);
        assert forall|i: int| 0 <= i < written.advanced.len() implies back.advanced[i]
            == written.advanced[i] by {
            assert forall|j: int| 0 <= j < written.advanced[i].len() implies back.advanced[i][j]
                == written.advanced[i][j] by {
                assert(!written.advanced[i][j].1.is_bare());
            }
            assert(back.advanced[i] =~= written.advanced[i]);
        }
        assert(back.advanced =~= written.advanced);
    }
}

/// The same of selectors: a resolved selector resolves to itself.
pub proof fn lemma_resolving_structured_selector(
    resolved: BoolOrConstraintsView<ResolvedMediaTrackConstraint>,
)
    ensures
        resolve_bool_or_constraints(structured_bool_or_constraints(resolved)) == resolved,
{
    if let BoolOrConstraintsView::Constraints(constraints) = resolved {
        lemma_resolving_structured_constraints(
            structured_constraints(constraints),
            constraints,
        );
    }
}

/// Every constraints value can be resolved, and what comes out holds no bare value and has the
/// shape of what went in: as many mandatory properties with the same names in the same order,
/// as many advanced sets, and in each of them the same.
pub proof fn lemma_resolution_keeps_structure(
    written: TrackConstraintsView<MediaTrackConstraint>,
)
    ensures
        holds_no_bare_value(structured_constraints(resolve_constraints(written))),
        resolve_constraints(written).mandatory.len() == written.mandatory.len(),
        forall|i: int|
            0 <= i < written.mandatory.len() ==> (#[trigger] resolve_constraints(
                written,
            ).mandatory[i]).0 == written.mandatory[i].0,
        resolve_constraints(written).advanced.len() == written.advanced.len(),
        forall|i: int|
            0 <= i < written.advanced.len() ==> (#[trigger] resolve_constraints(
                written,
            ).advanced[i]).len() == written.advanced[i].len(),
        forall|i: int, j: int|
            0 <= i < written.advanced.len() && 0 <= j < written.advanced[i].len()
                ==> (#[trigger] resolve_constraints(written).advanced[i][j]).0
                == written.advanced[i][j].0,
{
}

/// The required and the basic constraints divide the mandatory constraints between them:
/// every mandatory property is in one of the two sets, and none is in both.
pub proof fn lemma_required_and_basic_partition(
    mandatory: Seq<(Seq<char>, ResolvedMediaTrackConstraint)>,
)
    requires
        distinct_keys(mandatory),
    ensures
        keys_of(required_entries(mandatory)).union(keys_of(basic_entries(mandatory))) == keys_of(
            mandatory,
        ),
        keys_of(required_entries(mandatory)).disjoint(keys_of(basic_entries(mandatory))),
        distinct_keys(required_entries(mandatory)),
        distinct_keys(basic_entries(mandatory)),
{
    let required = keys_of(required_entries(mandatory));
    let basic = keys_of(basic_entries(mandatory));
    lemma_filter_entries(mandatory, demand_is(true));
    lemma_filter_entries(mandatory, demand_is(false));
    assert forall|key: Seq<char>| required.union(basic).contains(key) <==> keys_of(
        mandatory,
    ).contains(key) by {
        if required.contains(key) {
            let i = choose|i: int|
                0 <= i < mandatory.len() && (#[trigger] mandatory[i]).0 == key && demand_is(true)(
                    mandatory[i],
                );
            assert(mandatory[i].0 == key);
        }
        if basic.contains(key) {
            let i = choose|i: int|
                0 <= i < mandatory.len() && (#[trigger] mandatory[i]).0 == key && demand_is(
                    false,
                )(mandatory[i]);
            assert(mandatory[i].0 == key);
        }
        if keys_of(mandatory).contains(key) {
            let i = choose|i: int| 0 <= i < mandatory.len() && mandatory[i].0 == key;
            if mandatory[i].1.is_required() {
                assert(demand_is(true)(mandatory[i]));
            } else {
                assert(demand_is(false)(mandatory[i]));
            }
        }
    }
    assert(required.union(basic) =~= keys_of(mandatory));
    assert forall|key: Seq<char>| !(required.contains(key) && basic.contains(key)) by {
        if required.contains(key) && basic.contains(key) {
            let i = choose|i: int|
                0 <= i < mandatory.len() && (#[trigger] mandatory[i]).0 == key && demand_is(true)(
                    mandatory[i],
                );
            let j = choose|j: int|
                0 <= j < mandatory.len() && (#[trigger] mandatory[j]).0 == key && demand_is(
                    false,
                )(mandatory[j]);
            if i < j {
                assert(mandatory[i].0 != mandatory[j].0);
            } else if j < i {
                assert(mandatory[j].0 != mandatory[i].0);
            }
        }
    }
}

/// Where the only advanced set constrains nothing but properties that the platform does not
/// support, sanitizing leaves no advanced set. Mandatory constraints of that kind are left
/// with nothing in them, and are still there.
pub proof fn lemma_unsupported_constraints_vanish(
    constraints: TrackConstraintsView<ResolvedMediaTrackConstraint>,
    supported: Set<Seq<char>>,
)
    requires
        constraints.advanced.len() == 1,
        keys_of(constraints.advanced[0]).disjoint(supported),
    ensures
        sanitize_constraints(constraints, supported).advanced == Seq::<
            Seq<(Seq<char>, SanitizedMediaTrackConstraint)>,
        >::empty(),
        keys_of(constraints.mandatory).disjoint(supported) ==> sanitize_constraints(
            constraints,
            supported,
        ).mandatory == Seq::<(Seq<char>, SanitizedMediaTrackConstraint)>::empty(),
{
    let only = constraints.advanced[0];
    lemma_unsupported_entries_vanish(only, supported);
    assert(constraints.advanced =~= seq![only]);
    Seq::lemma_filter_map_singleton(only, sanitize_set(supported));
    if keys_of(constraints.mandatory).disjoint(supported) {
        lemma_unsupported_entries_vanish(constraints.mandatory, supported);
    }
}

/// Where the clone of a constraint is equal to the constraint, cloned constraints are equal to
/// the constraints they were cloned from.
pub proof fn lemma_cloned_constraints_are_equal<T: Clone>(
    source: TrackConstraintsView<T>,
    copy: TrackConstraintsView<T>,
)
    requires
        cloned_constraints(source, copy),
        forall|a: T, b: T| #[trigger] cloned::<T>(a, b) ==> a == b,
    ensures
        copy == source,
{
    lemma_cloned_entries_are_equal(source.mandatory, copy.mandatory);
    lemma_cloned_sets_are_equal(source.advanced, copy.advanced);
}

} // verus!
