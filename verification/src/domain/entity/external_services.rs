//! External services that media come from, and the metadata that locates a
//! medium on one of them.

use vstd::prelude::*;

verus! {

/// Identifier of an external service: the 128-bit value of its UUID.
#[derive(Clone, Copy, Debug, Default, PartialEq, Eq, Hash, Structural)]
pub struct ExternalServiceId(pub u128);

/// A service such as pixiv or Twitter.
#[derive(Clone, Debug, PartialEq, Eq)]
pub struct ExternalService {
    pub id: ExternalServiceId,
    pub slug: String,
    pub name: String,
}

/// Where a medium lives on its service.
#[derive(Clone, Debug, PartialEq, Eq)]
pub enum ExternalMetadata {
    Fantia { id: u64 },
    Nijie { id: u64 },
    Pixiv { id: u64 },
    PixivFanbox { id: u64, creator_id: String },
    Seiga { id: u64 },
    Skeb { id: u64, creator_id: String },
    Twitter { id: u64 },
    Website { url: String },
    Custom(String),
}

/// Errors about external services.
#[derive(Debug, PartialEq, Eq)]
pub enum ExternalServiceError {
    NotFound(ExternalServiceId),
    InvalidMetadata(String),
}

} // verus!
