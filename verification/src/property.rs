//! Property names, and the set of them that a platform supports.

use vstd::prelude::*;

verus! {

/// The name of a property of a media track, such as `deviceId` or `frameRate`.
///
/// The view of a property is its name as a sequence of characters. Two properties are the same
/// property when their views are equal.
#[derive(Debug, PartialEq, Eq)]
pub struct MediaTrackProperty {
    name: String,
}

impl View for MediaTrackProperty {
    type V = Seq<char>;

    closed spec fn view(&self) -> Seq<char> {
        self.name@
    }
}

impl Clone for MediaTrackProperty {
    fn clone(&self) -> (copy: Self)
        ensures
            copy == *self,
    {
        MediaTrackProperty { name: self.name.clone() }
    }
}

impl MediaTrackProperty {
    /// The property called `name`.
    pub fn new(name: &str) -> (property: Self)
        ensures
            property@ == name@,
    {
        MediaTrackProperty { name: name.to_owned() }
    }

    /// The property's name.
    pub fn name(&self) -> (name: &str)
        ensures
            name@ == self@,
    {
        self.name.as_str()
    }

    /// Whether `self` and `other` name the same property.
    pub fn same_as(&self, other: &MediaTrackProperty) -> (same: bool)
        ensures
            same == (self@ == other@),
    {
        self.name == other.name
    }
}

/// The names that occur in `properties`.
pub open spec fn names_of(properties: Seq<MediaTrackProperty>) -> Set<Seq<char>> {
    Set::new(|name: Seq<char>| exists|i: int| 0 <= i < properties.len() && properties[i]@ == name)
}

/// The properties that a platform knows how to constrain.
///
/// Its view is the set of their names. How a platform arrives at the list is its own affair;
/// constraints are only ever tested against it.
#[derive(Debug)]
pub struct MediaTrackSupportedConstraints {
    properties: Vec<MediaTrackProperty>,
}

impl View for MediaTrackSupportedConstraints {
    type V = Set<Seq<char>>;

    closed spec fn view(&self) -> Set<Seq<char>> {
        names_of(self.properties@)
    }
}

impl Clone for MediaTrackSupportedConstraints {
    fn clone(&self) -> (copy: Self)
        ensures
            copy@ == self@,
    {
        let properties = self.properties.clone();
        assert(properties@ =~= self.properties@);
        MediaTrackSupportedConstraints { properties }
    }
}

impl MediaTrackSupportedConstraints {
    /// The platform that supports exactly the listed properties. A property listed twice counts
    /// once.
    pub fn new(properties: Vec<MediaTrackProperty>) -> (supported: Self)
        ensures
            supported@ == names_of(properties@),
    {
        MediaTrackSupportedConstraints { properties }
    }

    /// Whether the platform supports `property`.
    pub fn contains(&self, property: &MediaTrackProperty) -> (found: bool)
        ensures
            found == self@.contains(property@),
    {
        let mut i: usize = 0;
        while i < self.properties.len()
            invariant
                i <= self.properties@.len(),
                forall|k: int| 0 <= k < i ==> self.properties@[k]@ != property@,
            decreases self.properties@.len() - i,
        {
            if self.properties[i].same_as(property) {
                return true;
            }
            i += 1;
        }
        false
    }
}

} // verus!
