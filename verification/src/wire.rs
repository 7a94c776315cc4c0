//! The shape in which constraints are written down.
//!
//! Written down, the constraints of a track are one flat object. Each mandatory property is a
//! member of the object under its own name. The advanced sets, if there are any, are one more
//! member, called `advanced`; without advanced sets there is no such member. A selector is
//! written as a bare boolean or as that object, with nothing to mark which of the two it is.
//!
//! The types of this module hold a value in that shape. How a constraint or a member is put
//! into bytes is left to whatever reads and writes them.

use crate::constraints::advanced::GenericAdvancedMediaTrackConstraints;
use crate::constraints::constraint_set::{
    collect_entries, distinct_keys, entries_view, keys_of, lemma_collect_distinct_entries,
    GenericMediaTrackConstraintSet,
};
use crate::constraints::mandatory::GenericMandatoryMediaTrackConstraints;
use crate::constraints::track::{
    should_skip_advanced, BoolOrConstraintsView, GenericBoolOrMediaTrackConstraints,
    GenericMediaTrackConstraints, TrackConstraintsView,
};
use crate::property::MediaTrackProperty;
use vstd::prelude::*;

verus! {

/// The name of the member that holds the advanced sets.
pub const ADVANCED: &'static str = "advanced";

/// The constraints of a track in the shape in which they are written: the members that are
/// mandatory properties, in order, and the `advanced` member, if there is one.
#[derive(Debug, PartialEq, Eq)]
pub struct FlatMediaTrackConstraints<T> {
    pub members: Vec<(MediaTrackProperty, T)>,
    pub advanced: Option<GenericAdvancedMediaTrackConstraints<T>>,
}

/// A selector in the shape in which it is written: a boolean, or an object.
#[derive(Debug, PartialEq, Eq)]
pub enum FlatBoolOrMediaTrackConstraints<T> {
    Bool(bool),
    Object(FlatMediaTrackConstraints<T>),
}

/// Written constraints as plain values.
pub struct FlatConstraintsView<T> {
    pub members: Seq<(Seq<char>, T)>,
    pub advanced: Option<Seq<Seq<(Seq<char>, T)>>>,
}

/// A written selector as plain values.
pub enum FlatBoolOrConstraintsView<T> {
    Bool(bool),
    Object(FlatConstraintsView<T>),
}

impl<T> View for FlatMediaTrackConstraints<T> {
    type V = FlatConstraintsView<T>;

    open spec fn view(&self) -> FlatConstraintsView<T> {
        FlatConstraintsView {
            members: entries_view(self.members@),
            advanced: match self.advanced {
                Some(advanced) => Some(advanced@),
                None => None,
            },
        }
    }
}

impl<T> View for FlatBoolOrMediaTrackConstraints<T> {
    type V = FlatBoolOrConstraintsView<T>;

    open spec fn view(&self) -> FlatBoolOrConstraintsView<T> {
        match self {
            FlatBoolOrMediaTrackConstraints::Bool(flag) => FlatBoolOrConstraintsView::Bool(*flag),
            FlatBoolOrMediaTrackConstraints::Object(object) => FlatBoolOrConstraintsView::Object(
                object@,
            ),
        }
    }
}

/// The shape in which `constraints` are written: the mandatory entries as members, and the
/// advanced sets as one more member unless there is none.
pub open spec fn flatten_constraints<T>(constraints: TrackConstraintsView<T>) -> FlatConstraintsView<
    T,
> {
    FlatConstraintsView {
        members: constraints.mandatory,
        advanced: if constraints.advanced.len() == 0 {
            None
        } else {
            Some(constraints.advanced)
        },
    }
}

/// The constraints that `flat` is read as: the members are collected into the mandatory set,
/// and where the `advanced` member is missing there are no advanced sets.
pub open spec fn unflatten_constraints<T>(flat: FlatConstraintsView<T>) -> TrackConstraintsView<T> {
    TrackConstraintsView {
        mandatory: collect_entries(flat.members),
        advanced: match flat.advanced {
            Some(advanced) => advanced,
            None => Seq::empty(),
        },
    }
}

/// The shape in which `selector` is written: a flag as a boolean, constraints as their object.
pub open spec fn flatten_bool_or_constraints<T>(
    selector: BoolOrConstraintsView<T>,
) -> FlatBoolOrConstraintsView<T> {
    match selector {
        BoolOrConstraintsView::Bool(flag) => FlatBoolOrConstraintsView::Bool(flag),
        BoolOrConstraintsView::Constraints(constraints) => FlatBoolOrConstraintsView::Object(
            flatten_constraints(constraints),
        ),
    }
}

/// The selector that `flat` is read as: a boolean as a flag, an object as constraints.
pub open spec fn unflatten_bool_or_constraints<T>(
    flat: FlatBoolOrConstraintsView<T>,
) -> BoolOrConstraintsView<T> {
    match flat {
        FlatBoolOrConstraintsView::Bool(flag) => BoolOrConstraintsView::Bool(flag),
        FlatBoolOrConstraintsView::Object(object) => BoolOrConstraintsView::Constraints(
            unflatten_constraints(object),
        ),
    }
}

/// No two members of `flat` have the same name, the `advanced` member counted in.
pub open spec fn member_names_are_distinct<T>(flat: FlatConstraintsView<T>) -> bool {
    distinct_keys(flat.members) && (flat.advanced is Some ==> !keys_of(flat.members).contains(
        ADVANCED@,
    ))
}

/// What is written is read back as it was: constraints whose mandatory properties are
/// distinct, as those of every constraints value are, come back from their written shape
/// unchanged. The members of that shape have distinct names, unless there are advanced sets
/// beside a mandatory property that is itself called `advanced`.
pub proof fn lemma_written_constraints_are_read_back<T>(constraints: TrackConstraintsView<T>)
    requires
        distinct_keys(constraints.mandatory),
    ensures
        unflatten_constraints(flatten_constraints(constraints)) == constraints,
        !keys_of(constraints.mandatory).contains(ADVANCED@) ==> member_names_are_distinct(
            flatten_constraints(constraints),
        ),
{
    lemma_collect_distinct_entries(constraints.mandatory);
    let back = unflatten_constraints(flatten_constraints(constraints));
    assert(back.advanced =~= constraints.advanced);
}

/// The same of selectors.
pub proof fn lemma_written_selector_is_read_back<T>(selector: BoolOrConstraintsView<T>)
    requires
        selector matches BoolOrConstraintsView::Constraints(constraints) ==> distinct_keys(
            constraints.mandatory,
        ),
    ensures
        unflatten_bool_or_constraints(flatten_bool_or_constraints(selector)) == selector,
{
    if let BoolOrConstraintsView::Constraints(constraints) = selector {
        lemma_written_constraints_are_read_back(constraints);
    }
}

/// What is read is written back as it was, provided that it was in the shape in which
/// constraints are written: with members of distinct names, and without an `advanced` member
/// that holds no set.
pub proof fn lemma_read_constraints_are_written_back<T>(flat: FlatConstraintsView<T>)
    requires
        distinct_keys(flat.members),
        flat.advanced matches Some(advanced) ==> advanced.len() > 0,
    ensures
        flatten_constraints(unflatten_constraints(flat)) == flat,
{
    lemma_collect_distinct_entries(flat.members);
}

impl<T> GenericMediaTrackConstraints<T> {
    /// The constraints in the shape in which they are written.
    pub fn into_flat(self) -> (flat: FlatMediaTrackConstraints<T>)
        ensures
            flat@ == flatten_constraints(self@),
            distinct_keys(flat@.members),
    {
        let Self { mandatory, advanced } = self;
        let members = mandatory.into_inner().into_entries();
        let advanced = if should_skip_advanced(&advanced) {
            None
        } else {
            Some(advanced)
        };
        FlatMediaTrackConstraints { members, advanced }
    }

    /// The constraints that `flat` is read as.
    pub fn from_flat(flat: FlatMediaTrackConstraints<T>) -> (constraints: Self)
        ensures
            constraints@ == unflatten_constraints(flat@),
    {
        let FlatMediaTrackConstraints { members, advanced } = flat;
        let mandatory = GenericMandatoryMediaTrackConstraints::new(
            GenericMediaTrackConstraintSet::from_entries(members),
        );
        let advanced = match advanced {
            Some(advanced) => advanced,
            None => GenericAdvancedMediaTrackConstraints::default(),
        };
        GenericMediaTrackConstraints { mandatory, advanced }
    }
}

impl<T> GenericBoolOrMediaTrackConstraints<T> {
    /// The selector in the shape in which it is written.
    pub fn into_flat(self) -> (flat: FlatBoolOrMediaTrackConstraints<T>)
        ensures
            flat@ == flatten_bool_or_constraints(self@),
    {
        match self {
            GenericBoolOrMediaTrackConstraints::Bool(flag) => FlatBoolOrMediaTrackConstraints::Bool(
                flag,
            ),
            GenericBoolOrMediaTrackConstraints::Constraints(constraints) => {
                FlatBoolOrMediaTrackConstraints::Object(constraints.into_flat())
            },
        }
    }

    /// The selector that `flat` is read as.
    pub fn from_flat(flat: FlatBoolOrMediaTrackConstraints<T>) -> (selector: Self)
        ensures
            selector@ == unflatten_bool_or_constraints(flat@),
    {
        match flat {
            FlatBoolOrMediaTrackConstraints::Bool(flag) => GenericBoolOrMediaTrackConstraints::Bool(
                flag,
            ),
            FlatBoolOrMediaTrackConstraints::Object(object) => {
                GenericBoolOrMediaTrackConstraints::Constraints(
                    GenericMediaTrackConstraints::from_flat(object),
                )
            },
        }
    }
}

} // verus!
