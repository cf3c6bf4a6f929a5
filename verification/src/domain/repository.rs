//! Values shared by the repositories.

use vstd::prelude::*;

verus! {

/// Storage of background jobs. It asks nothing of its implementations yet
/// beyond being shareable between request handlers.
pub trait JobsRepository: Clone + Send + Sync + 'static {}

/// Direction of an ordered listing.
#[derive(Clone, Copy, Debug, PartialEq, Eq, Structural)]
pub enum OrderDirection {
    Ascending,
    Descending,
}

/// Outcome of a deletion.
#[derive(Clone, Copy, Debug, PartialEq, Eq, Structural)]
pub enum DeleteResult {
    NotFound,
    Deleted(u64),
}

impl DeleteResult {
    /// The outcome of a deletion that affected `affected` rows.
    pub fn from_affected(affected: u64) -> (r: Self)
        ensures
            affected == 0 ==> r == DeleteResult::NotFound,
            affected != 0 ==> r == DeleteResult::Deleted(affected),
    {
        match affected {
            0 => DeleteResult::NotFound,
            count => DeleteResult::Deleted(count),
        }
    }
}

} // verus!
