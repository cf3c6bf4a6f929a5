//! Identifiers of stored replicas of media and of their thumbnails.

use vstd::prelude::*;

verus! {

/// Identifier of a replica: the 128-bit value of its UUID.
#[derive(Clone, Copy, Debug, Default, PartialEq, Eq, Hash, Structural)]
pub struct ReplicaId(pub u128);

/// Identifier of a thumbnail: the 128-bit value of its UUID.
#[derive(Clone, Copy, Debug, Default, PartialEq, Eq, Hash, Structural)]
pub struct ThumbnailId(pub u128);

/// A stored copy of a medium, with the fields the library reads: its id and
/// its thumbnail, where one was made.
#[derive(Clone, Debug, PartialEq, Eq)]
pub struct Replica {
    pub id: ReplicaId,
    pub thumbnail: Option<Vec<u8>>,
}

} // verus!
