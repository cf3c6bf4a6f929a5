//! The stored form of tag types.

use vstd::prelude::*;

use crate::domain::entity::tag_types::{TagType, TagTypeId};

verus! {

/// A row of the `tag_types` table.
pub struct PostgresTagTypeRow {
    pub id: u128,
    pub slug: String,
    pub name: String,
}

impl PostgresTagTypeRow {
    /// The tag type that the row stores.
    pub fn into_tag_type(self) -> (t: TagType)
        ensures
            t.id == TagTypeId(self.id),
            t.slug == self.slug,
            t.name == self.name,
    {
        TagType { id: TagTypeId(self.id), slug: self.slug, name: self.name }
    }
}

/// Identifiers of the `tag_types` table and its columns.
#[derive(Clone, Copy, Debug, PartialEq, Eq, Structural)]
pub enum PostgresTagType {
    Table,
    Id,
    Slug,
    Name,
}

impl PostgresTagType {
    /// The SQL name of the identifier.
    pub fn name(&self) -> (n: &'static str)
        ensures
            n@ == (match *self {
                PostgresTagType::Table => "tag_types"@,
                PostgresTagType::Id => "id"@,
                PostgresTagType::Slug => "slug"@,
                PostgresTagType::Name => "name"@,
            }),
    {
        match self {
            PostgresTagType::Table => "tag_types",
            PostgresTagType::Id => "id",
            PostgresTagType::Slug => "slug",
            PostgresTagType::Name => "name",
        }
    }
}

/// Aliases of the tag type columns in queries that join media tags.
#[derive(Clone, Copy, Debug, PartialEq, Eq, Structural)]
pub enum PostgresTagTagType {
    TagTypeId,
    TagTypeSlug,
    TagTypeName,
}

impl PostgresTagTagType {
    /// The SQL name of the identifier.
    pub fn name(&self) -> (n: &'static str)
        ensures
            n@ == (match *self {
                PostgresTagTagType::TagTypeId => "tag_type_id"@,
                PostgresTagTagType::TagTypeSlug => "tag_type_slug"@,
                PostgresTagTagType::TagTypeName => "tag_type_name"@,
            }),
    {
        match self {
            PostgresTagTagType::TagTypeId => "tag_type_id",
            PostgresTagTagType::TagTypeSlug => "tag_type_slug",
            PostgresTagTagType::TagTypeName => "tag_type_name",
        }
    }
}

/// The slug and name of a tag type after an update: given values replace
/// the stored ones.
pub fn merge_tag_type_update(current: PostgresTagTypeRow, slug: Option<String>, name: Option<String>) -> (r: (String, String))
    ensures
        r.0 == (match slug {
            Some(s) => s,
            None => current.slug,
        }),
        r.1 == (match name {
            Some(n) => n,
            None => current.name,
        }),
{
    let slug = match slug {
        Some(s) => s,
        None => current.slug,
    };
    let name = match name {
        Some(n) => n,
        None => current.name,
    };
    (slug, name)
}

} // verus!
