//! The stored form of sources: the metadata is kept as tagged JSON.

use vstd::prelude::*;

use chrono::NaiveDateTime;

use crate::domain::entity::external_services::{ExternalMetadata, ExternalService, ExternalServiceError, ExternalServiceId};
use crate::domain::entity::sources::{slug_accepts, Source, SourceId};
use crate::json::{json_from_str, json_text_parses, json_to_string, json_value_of, json_written};

verus! {

/// External metadata as stored in the `external_metadata` JSON column.
#[derive(Debug, PartialEq)]
pub enum PostgresExternalServiceMetadata {
    Fantia { id: u64 },
    Nijie { id: u64 },
    Pixiv { id: u64 },
    PixivFanbox { id: u64, creator_id: String },
    Seiga { id: u64 },
    Skeb { id: u64, creator_id: String },
    Twitter { id: u64 },
    Website { url: String },
    Custom(serde_json::Value),
}

/// `p` and `m` hold the same metadata; for custom metadata only the kind
/// is compared.
pub open spec fn same_metadata(p: PostgresExternalServiceMetadata, m: ExternalMetadata) -> bool {
    match (p, m) {
        (PostgresExternalServiceMetadata::Fantia { id: a }, ExternalMetadata::Fantia { id: b }) => a == b,
        (PostgresExternalServiceMetadata::Nijie { id: a }, ExternalMetadata::Nijie { id: b }) => a == b,
        (PostgresExternalServiceMetadata::Pixiv { id: a }, ExternalMetadata::Pixiv { id: b }) => a == b,
        (
            PostgresExternalServiceMetadata::PixivFanbox { id: a, creator_id: c },
            ExternalMetadata::PixivFanbox { id: b, creator_id: d },
        ) => a == b && c == d,
        (PostgresExternalServiceMetadata::Seiga { id: a }, ExternalMetadata::Seiga { id: b }) => a == b,
        (
            PostgresExternalServiceMetadata::Skeb { id: a, creator_id: c },
            ExternalMetadata::Skeb { id: b, creator_id: d },
        ) => a == b && c == d,
        (PostgresExternalServiceMetadata::Twitter { id: a }, ExternalMetadata::Twitter { id: b }) => a == b,
        (PostgresExternalServiceMetadata::Website { url: a }, ExternalMetadata::Website { url: b }) => a == b,
        (PostgresExternalServiceMetadata::Custom(_), ExternalMetadata::Custom(_)) => true,
        _ => false,
    }
}

impl TryFrom<PostgresExternalServiceMetadata> for ExternalMetadata {
    type Error = serde_json::Error;

    /// Reads stored metadata; custom metadata becomes the JSON text that
    /// serde_json writes for its document. Reading never fails.
    fn try_from(metadata: PostgresExternalServiceMetadata) -> (r: Result<Self, serde_json::Error>)
        ensures
            r matches Ok(m) && same_metadata(metadata, m),
            metadata matches PostgresExternalServiceMetadata::Custom(v) ==> (r matches Ok(
                ExternalMetadata::Custom(t),
            ) && t@ == json_written(v)),
    {
        match metadata {
            PostgresExternalServiceMetadata::Fantia { id } => Ok(ExternalMetadata::Fantia { id }),
            PostgresExternalServiceMetadata::Nijie { id } => Ok(ExternalMetadata::Nijie { id }),
            PostgresExternalServiceMetadata::Pixiv { id } => Ok(ExternalMetadata::Pixiv { id }),
            PostgresExternalServiceMetadata::PixivFanbox { id, creator_id } => Ok(
                ExternalMetadata::PixivFanbox { id, creator_id },
            ),
            PostgresExternalServiceMetadata::Seiga { id } => Ok(ExternalMetadata::Seiga { id }),
            PostgresExternalServiceMetadata::Skeb { id, creator_id } => Ok(
                ExternalMetadata::Skeb { id, creator_id },
            ),
            PostgresExternalServiceMetadata::Twitter { id } => Ok(ExternalMetadata::Twitter { id }),
            PostgresExternalServiceMetadata::Website { url } => Ok(ExternalMetadata::Website { url }),
            PostgresExternalServiceMetadata::Custom(v) => match json_to_string(&v) {
                Ok(text) => Ok(ExternalMetadata::Custom(text)),
                Err(e) => Err(e),
            },
        }
    }
}

impl vstd::std_specs::convert::TryFromSpecImpl<PostgresExternalServiceMetadata> for ExternalMetadata {
    open spec fn obeys_try_from_spec() -> bool {
        false
    }

    open spec fn try_from_spec(v: PostgresExternalServiceMetadata) -> Result<Self, serde_json::Error> {
        arbitrary()
    }
}

impl TryFrom<ExternalMetadata> for PostgresExternalServiceMetadata {
    type Error = serde_json::Error;

    /// The stored form of metadata; custom metadata must be JSON text.
    fn try_from(metadata: ExternalMetadata) -> (r: Result<Self, serde_json::Error>)
        ensures
            !(metadata is Custom) ==> (r matches Ok(p) && same_metadata(p, metadata)),
            metadata matches ExternalMetadata::Custom(t) ==> (r is Ok <==> json_text_parses(t@)),
            metadata matches ExternalMetadata::Custom(t) ==> (r matches Ok(p) ==> p
                == PostgresExternalServiceMetadata::Custom(json_value_of(t@))),
            r matches Ok(p) ==> same_metadata(p, metadata),
    {
        match metadata {
            ExternalMetadata::Fantia { id } => Ok(PostgresExternalServiceMetadata::Fantia { id }),
            ExternalMetadata::Nijie { id } => Ok(PostgresExternalServiceMetadata::Nijie { id }),
            ExternalMetadata::Pixiv { id } => Ok(PostgresExternalServiceMetadata::Pixiv { id }),
            ExternalMetadata::PixivFanbox { id, creator_id } => Ok(
                PostgresExternalServiceMetadata::PixivFanbox { id, creator_id },
            ),
            ExternalMetadata::Seiga { id } => Ok(PostgresExternalServiceMetadata::Seiga { id }),
            ExternalMetadata::Skeb { id, creator_id } => Ok(
                PostgresExternalServiceMetadata::Skeb { id, creator_id },
            ),
            ExternalMetadata::Twitter { id } => Ok(PostgresExternalServiceMetadata::Twitter { id }),
            ExternalMetadata::Website { url } => Ok(PostgresExternalServiceMetadata::Website { url }),
            ExternalMetadata::Custom(text) => match json_from_str(text.as_str()) {
                Ok(v) => Ok(PostgresExternalServiceMetadata::Custom(v)),
                Err(e) => Err(e),
            },
        }
    }
}

impl vstd::std_specs::convert::TryFromSpecImpl<ExternalMetadata> for PostgresExternalServiceMetadata {
    open spec fn obeys_try_from_spec() -> bool {
        false
    }

    open spec fn try_from_spec(v: ExternalMetadata) -> Result<Self, serde_json::Error> {
        arbitrary()
    }
}

/// A row of the `sources` table.
pub struct PostgresSourceRow {
    pub id: u128,
    pub external_service_id: u128,
    pub external_metadata: PostgresExternalServiceMetadata,
    pub created_at: NaiveDateTime,
    pub updated_at: NaiveDateTime,
}

/// A row of `sources` joined with its external service.
pub struct PostgresSourceExternalServiceRow {
    pub source_id: u128,
    pub source_external_metadata: PostgresExternalServiceMetadata,
    pub source_created_at: NaiveDateTime,
    pub source_updated_at: NaiveDateTime,
    pub external_service_id: u128,
    pub external_service_slug: String,
    pub external_service_name: String,
}

impl PostgresSourceRow {
    /// The source that the row stores, with its service.
    pub fn into_source(self, external_service: ExternalService) -> (r: Result<Source, serde_json::Error>)
        ensures
            r is Ok,
            r matches Ok(s) ==> s.id == SourceId(self.id) && s.external_service == external_service
                && same_metadata(self.external_metadata, s.external_metadata)
                && s.created_at == self.created_at && s.updated_at == self.updated_at,
            r matches Ok(s) ==> (self.external_metadata matches PostgresExternalServiceMetadata::Custom(v)
                ==> (s.external_metadata matches ExternalMetadata::Custom(t) && t@ == json_written(v))),
    {
        let external_metadata = ExternalMetadata::try_from(self.external_metadata)?;
        Ok(Source {
            id: SourceId(self.id),
            external_service,
            external_metadata,
            created_at: self.created_at,
            updated_at: self.updated_at,
        })
    }
}

impl PostgresSourceExternalServiceRow {
    /// The source that the joined row stores.
    pub fn into_source(self) -> (r: Result<Source, serde_json::Error>)
        ensures
            r is Ok,
            r matches Ok(s) ==> (self.source_external_metadata matches PostgresExternalServiceMetadata::Custom(v)
                ==> (s.external_metadata matches ExternalMetadata::Custom(t) && t@ == json_written(v))),
            r matches Ok(s) ==> s.id == SourceId(self.source_id) && s.external_service.id
                == ExternalServiceId(self.external_service_id) && s.external_service.slug
                == self.external_service_slug && s.external_service.name == self.external_service_name
                && same_metadata(self.source_external_metadata, s.external_metadata)
                && s.created_at == self.source_created_at && s.updated_at == self.source_updated_at,
    {
        let external_metadata = ExternalMetadata::try_from(self.source_external_metadata)?;
        Ok(Source {
            id: SourceId(self.source_id),
            external_service: ExternalService {
                id: ExternalServiceId(self.external_service_id),
                slug: self.external_service_slug,
                name: self.external_service_name,
            },
            external_metadata,
            created_at: self.source_created_at,
            updated_at: self.source_updated_at,
        })
    }
}

/// Identifiers of the `sources` table and its columns.
#[derive(Clone, Copy, Debug, PartialEq, Eq, Structural)]
pub enum PostgresSource {
    Table,
    Id,
    ExternalServiceId,
    ExternalMetadata,
    CreatedAt,
    UpdatedAt,
}

impl PostgresSource {
    /// The SQL name of the identifier.
    pub fn name(&self) -> (n: &'static str)
        ensures
            n@ == (match *self {
                PostgresSource::Table => "sources"@,
                PostgresSource::Id => "id"@,
                PostgresSource::ExternalServiceId => "external_service_id"@,
                PostgresSource::ExternalMetadata => "external_metadata"@,
                PostgresSource::CreatedAt => "created_at"@,
                PostgresSource::UpdatedAt => "updated_at"@,
            }),
    {
        match self {
            PostgresSource::Table => "sources",
            PostgresSource::Id => "id",
            PostgresSource::ExternalServiceId => "external_service_id",
            PostgresSource::ExternalMetadata => "external_metadata",
            PostgresSource::CreatedAt => "created_at",
            PostgresSource::UpdatedAt => "updated_at",
        }
    }
}

/// Aliases of the columns of `sources` joined with `external_services`.
#[derive(Clone, Copy, Debug, PartialEq, Eq, Structural)]
pub enum PostgresSourceExternalService {
    SourceId,
    SourceExternalMetadata,
    SourceCreatedAt,
    SourceUpdatedAt,
    ExternalServiceId,
    ExternalServiceSlug,
    ExternalServiceName,
}

impl PostgresSourceExternalService {
    /// The SQL name of the identifier.
    pub fn name(&self) -> (n: &'static str)
        ensures
            n@ == (match *self {
                PostgresSourceExternalService::SourceId => "source_id"@,
                PostgresSourceExternalService::SourceExternalMetadata => "source_external_metadata"@,
                PostgresSourceExternalService::SourceCreatedAt => "source_created_at"@,
                PostgresSourceExternalService::SourceUpdatedAt => "source_updated_at"@,
                PostgresSourceExternalService::ExternalServiceId => "external_service_id"@,
                PostgresSourceExternalService::ExternalServiceSlug => "external_service_slug"@,
                PostgresSourceExternalService::ExternalServiceName => "external_service_name"@,
            }),
    {
        match self {
            PostgresSourceExternalService::SourceId => "source_id",
            PostgresSourceExternalService::SourceExternalMetadata => "source_external_metadata",
            PostgresSourceExternalService::SourceCreatedAt => "source_created_at",
            PostgresSourceExternalService::SourceUpdatedAt => "source_updated_at",
            PostgresSourceExternalService::ExternalServiceId => "external_service_id",
            PostgresSourceExternalService::ExternalServiceSlug => "external_service_slug",
            PostgresSourceExternalService::ExternalServiceName => "external_service_name",
        }
    }
}

/// Failures of the JSON form of stored metadata.
#[derive(Debug)]
pub enum PostgresExternalServiceError {
    Serialize(serde_json::Error),
    Deserialize(serde_json::Error),
}

/// Why a stored source could not be returned.
#[derive(Debug)]
pub enum SourceRowError {
    Storage(PostgresExternalServiceError),
    Metadata(ExternalServiceError),
}

impl PostgresSourceRow {
    /// The source that a written row stores, checked against its service.
    pub fn into_checked_source(self, external_service: ExternalService) -> (r: Result<Source, SourceRowError>)
        ensures
            r is Ok <==> slug_accepts(external_service.slug@, r_metadata(self.external_metadata)),
            !(r matches Err(SourceRowError::Storage(_))),
            r matches Ok(s) ==> (self.external_metadata matches PostgresExternalServiceMetadata::Custom(v)
                ==> (s.external_metadata matches ExternalMetadata::Custom(t) && t@ == json_written(v))),
            r matches Ok(s) ==> s.id == SourceId(self.id) && s.external_service == external_service
                && same_metadata(self.external_metadata, s.external_metadata)
                && slug_accepts(s.external_service.slug@, s.external_metadata),
            r matches Err(SourceRowError::Metadata(ExternalServiceError::InvalidMetadata(slug))) ==> slug@ == external_service.slug@,
    {
        let ghost stored = self.external_metadata;
        let ghost service = external_service;
        match self.into_source(external_service) {
            Ok(source) => {
                proof {
                    if !(stored is Custom) {
                        lemma_same_metadata_unique(stored, source.external_metadata);
                    }
                }
                match source.validate() {
                    Ok(()) => Ok(source),
                    Err(e) => Err(SourceRowError::Metadata(e)),
                }
            },
            Err(e) => Err(SourceRowError::Storage(PostgresExternalServiceError::Deserialize(e))),
        }
    }
}

/// The domain metadata that non-custom stored metadata stands for.
pub open spec fn r_metadata(p: PostgresExternalServiceMetadata) -> ExternalMetadata {
    match p {
        PostgresExternalServiceMetadata::Fantia { id } => ExternalMetadata::Fantia { id },
        PostgresExternalServiceMetadata::Nijie { id } => ExternalMetadata::Nijie { id },
        PostgresExternalServiceMetadata::Pixiv { id } => ExternalMetadata::Pixiv { id },
        PostgresExternalServiceMetadata::PixivFanbox { id, creator_id } => ExternalMetadata::PixivFanbox { id, creator_id },
        PostgresExternalServiceMetadata::Seiga { id } => ExternalMetadata::Seiga { id },
        PostgresExternalServiceMetadata::Skeb { id, creator_id } => ExternalMetadata::Skeb { id, creator_id },
        PostgresExternalServiceMetadata::Twitter { id } => ExternalMetadata::Twitter { id },
        PostgresExternalServiceMetadata::Website { url } => ExternalMetadata::Website { url },
        PostgresExternalServiceMetadata::Custom(_) => ExternalMetadata::Custom(arbitrary()),
    }
}

/// Non-custom stored metadata stands for exactly one domain metadata.
pub proof fn lemma_same_metadata_unique(p: PostgresExternalServiceMetadata, m: ExternalMetadata)
    requires
        !(p is Custom),
        same_metadata(p, m),
    ensures
        m == r_metadata(p),
{
}

/// The service and metadata that a source keeps after an update: given
/// values replace the stored ones.
pub fn merge_source_update(
    row: PostgresSourceRow,
    external_service_id: Option<ExternalServiceId>,
    external_metadata: Option<ExternalMetadata>,
) -> (r: Result<(ExternalServiceId, PostgresExternalServiceMetadata), serde_json::Error>)
    ensures
        external_metadata is None ==> r is Ok,
        !(external_metadata matches Some(ExternalMetadata::Custom(_))) ==> r is Ok,
        external_metadata matches Some(ExternalMetadata::Custom(t)) ==> (r is Ok <==> json_text_parses(t@)),
        external_metadata matches Some(ExternalMetadata::Custom(t)) ==> (r matches Ok((id, m)) ==> m
            == PostgresExternalServiceMetadata::Custom(json_value_of(t@))),
        r matches Ok((id, m)) ==> id == (match external_service_id {
            Some(id) => id,
            None => ExternalServiceId(row.external_service_id),
        }) && (match external_metadata {
            Some(given) => same_metadata(m, given),
            None => m == row.external_metadata,
        }),
{
    let id = match external_service_id {
        Some(id) => id,
        None => ExternalServiceId(row.external_service_id),
    };
    let metadata = match external_metadata {
        Some(given) => match PostgresExternalServiceMetadata::try_from(given) {
            Ok(m) => m,
            Err(e) => return Err(e),
        },
        None => row.external_metadata,
    };
    Ok((id, metadata))
}

/// The sources of joined rows, in order; the first row whose metadata
/// cannot be read fails the whole list.
pub fn sources_from_rows(rows: Vec<PostgresSourceExternalServiceRow>) -> (r: Result<Vec<Source>, PostgresExternalServiceError>)
    ensures
        r is Ok,
        r matches Ok(sources) ==> sources@.len() == rows@.len() && forall|i: int|
            0 <= i < rows@.len() ==> #[trigger] sources@[i].id == SourceId(rows@[i].source_id)
                && sources@[i].external_service.id == ExternalServiceId(rows@[i].external_service_id)
                && sources@[i].external_service.slug == rows@[i].external_service_slug
                && sources@[i].external_service.name == rows@[i].external_service_name
                && same_metadata(rows@[i].source_external_metadata, sources@[i].external_metadata),
        r matches Ok(sources) ==> forall|i: int|
            0 <= i < rows@.len() ==> (#[trigger] rows@[i].source_external_metadata matches PostgresExternalServiceMetadata::Custom(v)
                ==> (sources@[i].external_metadata matches ExternalMetadata::Custom(t) && t@ == json_written(v))),
{
    let ghost all = rows@;
    let mut sources: Vec<Source> = Vec::new();
    let ghost mut done: int = 0;
    for row in it: rows
        invariant
            all == it.seq(),
            done == it.index(),
            sources@.len() == done,
            forall|i: int|
                0 <= i < done ==> #[trigger] sources@[i].id == SourceId(all[i].source_id)
                    && sources@[i].external_service.id == ExternalServiceId(all[i].external_service_id)
                    && sources@[i].external_service.slug == all[i].external_service_slug
                    && sources@[i].external_service.name == all[i].external_service_name
                    && same_metadata(all[i].source_external_metadata, sources@[i].external_metadata),
            forall|i: int|
                0 <= i < done ==> (#[trigger] all[i].source_external_metadata matches PostgresExternalServiceMetadata::Custom(v)
                    ==> (sources@[i].external_metadata matches ExternalMetadata::Custom(t) && t@ == json_written(v))),
    {
        let ghost current = row;
        match row.into_source() {
            Ok(source) => {
                sources.push(source);
            },
            Err(e) => {
                proof {
                    assert(all[done] == current);
                }
                return Err(PostgresExternalServiceError::Deserialize(e));
            },
        }
        proof {
            done = done + 1;
        }
    }
    Ok(sources)
}

/// Storing non-custom metadata and reading it back gives the same
/// metadata: whatever stored form `stored` the write produced and whatever
/// metadata `read` the read produced, `read` is the metadata written.
pub proof fn lemma_stored_metadata_round_trip(
    written: ExternalMetadata,
    stored: PostgresExternalServiceMetadata,
    read: ExternalMetadata,
)
    requires
        !(written is Custom),
        same_metadata(stored, written),
        same_metadata(stored, read),
    ensures
        read == written,
{
}

} // verus!
