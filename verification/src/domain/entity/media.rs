//! Media: the works that the library organizes.

use vstd::prelude::*;

use std::collections::BTreeMap;

use chrono::NaiveDateTime;

use crate::domain::entity::datetime::naive_date_time_min;
use crate::domain::entity::replicas::Replica;
use crate::domain::entity::sources::Source;
use crate::domain::entity::tag_types::TagType;
use crate::domain::entity::tags::Tag;

verus! {

/// Identifier of a medium: the 128-bit value of its UUID.
#[derive(Clone, Copy, Debug, Default, PartialEq, Eq, Hash, PartialOrd, Ord, Structural)]
pub struct MediumId(pub u128);

impl From<u128> for MediumId {
    fn from(value: u128) -> (id: Self)
        ensures
            id.0 == value,
    {
        MediumId(value)
    }
}

impl vstd::std_specs::convert::FromSpecImpl<u128> for MediumId {
    open spec fn obeys_from_spec() -> bool {
        true
    }

    open spec fn from_spec(v: u128) -> Self {
        MediumId(v)
    }
}

/// A medium: its sources, its tags grouped by tag type, its replicas and
/// its timestamps.
#[derive(Debug, PartialEq, Eq)]
pub struct Medium {
    pub id: MediumId,
    pub sources: Vec<Source>,
    pub tags: BTreeMap<TagType, Vec<Tag>>,
    pub replicas: Vec<Replica>,
    pub created_at: NaiveDateTime,
    pub updated_at: NaiveDateTime,
}

impl Default for Medium {
    /// A medium with the nil id, nothing attached, and both timestamps at
    /// the earliest representable date and time.
    fn default() -> (m: Self)
        ensures
            m.id == MediumId(0),
            m.sources@ == Seq::<Source>::empty(),
            m.tags@ == Map::<TagType, Vec<Tag>>::empty(),
            m.replicas@ == Seq::<Replica>::empty(),
    {
        Medium {
            id: MediumId(0),
            sources: Vec::new(),
            tags: BTreeMap::new(),
            replicas: Vec::new(),
            created_at: naive_date_time_min(),
            updated_at: naive_date_time_min(),
        }
    }
}

/// Errors about media.
#[derive(Debug, PartialEq, Eq)]
pub enum MediumError {
    NotFound(MediumId),
}

} // verus!
