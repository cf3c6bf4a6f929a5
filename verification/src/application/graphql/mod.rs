//! The pure parts of the GraphQL API: ordering, pagination and the shapes
//! of inputs.

use vstd::prelude::*;

use crate::domain::repository;

pub mod external_services;
pub mod media;
pub mod query;
pub mod sources;
pub mod tags;

verus! {

/// Sort direction as exposed by the API.
#[derive(Clone, Copy, Debug, PartialEq, Eq, Structural)]
pub enum OrderDirection {
    Asc,
    Desc,
}

impl Default for OrderDirection {
    fn default() -> (d: Self)
        ensures
            d == OrderDirection::Asc,
    {
        OrderDirection::Asc
    }
}

impl OrderDirection {
    /// The opposite direction.
    pub fn rev(&self) -> (d: Self)
        ensures
            d == rev_of(*self),
    {
        match self {
            Self::Asc => Self::Desc,
            Self::Desc => Self::Asc,
        }
    }

    /// The repository direction of an API direction.
    pub fn to_repository(self) -> (d: repository::OrderDirection)
        ensures
            d == repository_of(self),
    {
        match self {
            Self::Asc => repository::OrderDirection::Ascending,
            Self::Desc => repository::OrderDirection::Descending,
        }
    }

    /// The API direction of a repository direction.
    pub fn from_repository(direction: repository::OrderDirection) -> (d: Self)
        ensures
            d == api_of(direction),
    {
        match direction {
            repository::OrderDirection::Ascending => OrderDirection::Asc,
            repository::OrderDirection::Descending => OrderDirection::Desc,
        }
    }
}

impl From<OrderDirection> for repository::OrderDirection {
    fn from(direction: OrderDirection) -> (d: Self)
        ensures
            d == repository_of(direction),
    {
        direction.to_repository()
    }
}

impl vstd::std_specs::convert::FromSpecImpl<OrderDirection> for repository::OrderDirection {
    open spec fn obeys_from_spec() -> bool {
        true
    }

    open spec fn from_spec(direction: OrderDirection) -> Self {
        repository_of(direction)
    }
}

impl From<repository::OrderDirection> for OrderDirection {
    fn from(direction: repository::OrderDirection) -> (d: Self)
        ensures
            d == api_of(direction),
    {
        OrderDirection::from_repository(direction)
    }
}

impl vstd::std_specs::convert::FromSpecImpl<repository::OrderDirection> for OrderDirection {
    open spec fn obeys_from_spec() -> bool {
        true
    }

    open spec fn from_spec(direction: repository::OrderDirection) -> Self {
        api_of(direction)
    }
}

/// Reversing twice gives back the direction, and reversing always changes it.
pub proof fn lemma_rev_involution(d: OrderDirection)
    ensures
        rev_of(rev_of(d)) == d,
        rev_of(d) != d,
{
}

/// The opposite direction, as a value.
pub open spec fn rev_of(d: OrderDirection) -> OrderDirection {
    match d {
        OrderDirection::Asc => OrderDirection::Desc,
        OrderDirection::Desc => OrderDirection::Asc,
    }
}

/// Converting to the repository direction and back gives the direction.
pub proof fn lemma_repository_round_trip(d: OrderDirection)
    ensures
        api_of(repository_of(d)) == d,
{
}

/// Converting a repository direction to the API direction and back gives
/// the direction.
pub proof fn lemma_api_round_trip(d: repository::OrderDirection)
    ensures
        repository_of(api_of(d)) == d,
{
}

pub open spec fn repository_of(d: OrderDirection) -> repository::OrderDirection {
    match d {
        OrderDirection::Asc => repository::OrderDirection::Ascending,
        OrderDirection::Desc => repository::OrderDirection::Descending,
    }
}

pub open spec fn api_of(d: repository::OrderDirection) -> OrderDirection {
    match d {
        repository::OrderDirection::Ascending => OrderDirection::Asc,
        repository::OrderDirection::Descending => OrderDirection::Desc,
    }
}

} // verus!
