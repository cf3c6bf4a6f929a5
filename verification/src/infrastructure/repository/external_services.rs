//! The stored form of external services.

use vstd::prelude::*;

use crate::domain::entity::external_services::{ExternalService, ExternalServiceId};

verus! {

/// A row of the `external_services` table.
pub struct PostgresExternalServiceRow {
    pub id: u128,
    pub slug: String,
    pub name: String,
}

impl PostgresExternalServiceRow {
    /// The service that the row stores.
    pub fn into_external_service(self) -> (s: ExternalService)
        ensures
            s.id == ExternalServiceId(self.id),
            s.slug == self.slug,
            s.name == self.name,
    {
        ExternalService { id: ExternalServiceId(self.id), slug: self.slug, name: self.name }
    }
}

/// Identifiers of the `external_services` table and its columns.
#[derive(Clone, Copy, Debug, PartialEq, Eq, Structural)]
pub enum PostgresExternalService {
    Table,
    Id,
    Slug,
    Name,
}

impl PostgresExternalService {
    /// The SQL name of the identifier.
    pub fn name(&self) -> (n: &'static str)
        ensures
            n@ == (match *self {
                PostgresExternalService::Table => "external_services"@,
                PostgresExternalService::Id => "id"@,
                PostgresExternalService::Slug => "slug"@,
                PostgresExternalService::Name => "name"@,
            }),
    {
        match self {
            PostgresExternalService::Table => "external_services",
            PostgresExternalService::Id => "id",
            PostgresExternalService::Slug => "slug",
            PostgresExternalService::Name => "name",
        }
    }
}

/// The name of an external service after an update: a given name replaces
/// the stored one.
pub fn merge_external_service_update(current: PostgresExternalServiceRow, name: Option<String>) -> (r: String)
    ensures
        r == (match name {
            Some(n) => n,
            None => current.name,
        }),
{
    match name {
        Some(n) => n,
        None => current.name,
    }
}

} // verus!
