//! Sources: the places on external services that a medium comes from.

use vstd::prelude::*;

use chrono::NaiveDateTime;

use crate::domain::entity::external_services::{ExternalMetadata, ExternalService, ExternalServiceError};
use crate::text::{string_of, text_eq};

verus! {

/// Identifier of a source: the 128-bit value of its UUID.
#[derive(Clone, Copy, Debug, Default, PartialEq, Eq, Hash, Structural)]
pub struct SourceId(pub u128);

/// A medium's location on an external service.
#[derive(Debug, PartialEq, Eq)]
pub struct Source {
    pub id: SourceId,
    pub external_service: ExternalService,
    pub external_metadata: ExternalMetadata,
    pub created_at: NaiveDateTime,
    pub updated_at: NaiveDateTime,
}

/// Errors about sources.
#[derive(Debug, PartialEq, Eq)]
pub enum SourceError {
    NotFound(SourceId),
}

/// The service with slug `slug` takes metadata of the shape of `m`: each
/// built-in service takes its own kind, and any service takes custom
/// metadata.
pub open spec fn slug_accepts(slug: Seq<char>, m: ExternalMetadata) -> bool {
    match m {
        ExternalMetadata::Fantia { .. } => slug == "fantia"@,
        ExternalMetadata::Nijie { .. } => slug == "nijie"@,
        ExternalMetadata::Pixiv { .. } => slug == "pixiv"@,
        ExternalMetadata::PixivFanbox { .. } => slug == "pixiv_fanbox"@,
        ExternalMetadata::Seiga { .. } => slug == "seiga"@,
        ExternalMetadata::Skeb { .. } => slug == "skeb"@,
        ExternalMetadata::Twitter { .. } => slug == "twitter"@,
        ExternalMetadata::Website { .. } => slug == "website"@,
        ExternalMetadata::Custom(_) => true,
    }
}

impl Source {
    /// Checks that the metadata fits the service; the error names the
    /// service's slug.
    pub fn validate(&self) -> (r: Result<(), ExternalServiceError>)
        ensures
            slug_accepts(self.external_service.slug@, self.external_metadata) ==> r is Ok,
            !slug_accepts(self.external_service.slug@, self.external_metadata) ==> (r matches Err(
                ExternalServiceError::InvalidMetadata(s),
            ) && s@ == self.external_service.slug@),
    {
        let slug = self.external_service.slug.as_str();
        let accepted = match &self.external_metadata {
            ExternalMetadata::Fantia { .. } => text_eq(slug, "fantia"),
            ExternalMetadata::Nijie { .. } => text_eq(slug, "nijie"),
            ExternalMetadata::Pixiv { .. } => text_eq(slug, "pixiv"),
            ExternalMetadata::PixivFanbox { .. } => text_eq(slug, "pixiv_fanbox"),
            ExternalMetadata::Seiga { .. } => text_eq(slug, "seiga"),
            ExternalMetadata::Skeb { .. } => text_eq(slug, "skeb"),
            ExternalMetadata::Twitter { .. } => text_eq(slug, "twitter"),
            ExternalMetadata::Website { .. } => text_eq(slug, "website"),
            ExternalMetadata::Custom(_) => true,
        };
        if accepted {
            Ok(())
        } else {
            Err(ExternalServiceError::InvalidMetadata(string_of(slug)))
        }
    }
}

/// Custom metadata fits every service, and metadata of a built-in kind fits
/// exactly one slug.
pub proof fn lemma_one_slug_per_kind(m: ExternalMetadata, a: Seq<char>, b: Seq<char>)
    ensures
        m is Custom ==> slug_accepts(a, m),
        !(m is Custom) && slug_accepts(a, m) && slug_accepts(b, m) ==> a == b,
{
}

} // verus!
