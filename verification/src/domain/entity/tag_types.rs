//! Tag types: the roles a tag plays on a medium (character, series, ...).

use vstd::prelude::*;

verus! {

/// Identifier of a tag type: the 128-bit value of its UUID.
#[derive(Clone, Copy, Debug, Default, PartialEq, Eq, Hash, PartialOrd, Ord, Structural)]
pub struct TagTypeId(pub u128);

/// A tag type. Two tag types are the same when their ids are.
#[derive(Clone, Debug)]
pub struct TagType {
    pub id: TagTypeId,
    pub slug: String,
    pub name: String,
}

impl PartialEq for TagType {
    fn eq(&self, other: &Self) -> (r: bool) {
        self.id.0 == other.id.0
    }
}

impl vstd::std_specs::cmp::PartialEqSpecImpl for TagType {
    open spec fn obeys_eq_spec() -> bool {
        true
    }

    open spec fn eq_spec(&self, other: &Self) -> bool {
        self.id == other.id
    }
}

impl Eq for TagType {}

/// Hashes a tag type by its id alone, as `==` compares it: equal tag types
/// hash alike. The body feeds the id to std's `Hash` for `u128`.
impl core::hash::Hash for TagType {
    #[verifier::external_body]
    fn hash<H: core::hash::Hasher>(&self, state: &mut H) {
        self.id.hash(state);
    }
}

/// Errors about tag types.
#[derive(Debug, PartialEq, Eq)]
pub enum TagTypeError {
    NotFound(TagTypeId),
}

} // verus!
