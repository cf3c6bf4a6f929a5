//! External metadata as written in GraphQL inputs, its JSON text, and
//! sources as the API shows them.

use vstd::prelude::*;

use chrono::NaiveDateTime;

use crate::application::graphql::external_services::{shows_service, ExternalService};
use crate::domain::entity::{external_services, sources};
use crate::json::{json_from_str, json_text_parses, json_to_string, json_value_of, json_written};
use crate::json_text::{decimal, json_quoted, push_decimal, push_json_quoted};
use crate::text::string_append;

verus! {

/// Metadata that consists of an id.
#[derive(Clone, Copy, Debug, PartialEq, Eq, Structural)]
pub struct ExternalMetadataId {
    pub id: u64,
}

/// Metadata that consists of an id and the id of its creator.
#[derive(Clone, Debug, PartialEq, Eq)]
pub struct ExternalMetadataIdCreatorId {
    pub id: u64,
    pub creator_id: String,
}

/// Metadata that consists of a URL.
#[derive(Clone, Debug, PartialEq, Eq)]
pub struct ExternalMetadataUrl {
    pub url: String,
}

/// External metadata of a GraphQL input: exactly one service's shape.
#[derive(Debug, PartialEq)]
pub enum ExternalMetadata {
    Fantia(ExternalMetadataId),
    Nijie(ExternalMetadataId),
    Pixiv(ExternalMetadataId),
    PixivFanbox(ExternalMetadataIdCreatorId),
    Seiga(ExternalMetadataId),
    Skeb(ExternalMetadataIdCreatorId),
    Twitter(ExternalMetadataId),
    Website(ExternalMetadataUrl),
    Custom(serde_json::Value),
}

/// `g` and `m` hold the same metadata; for custom metadata only the kind
/// is compared.
pub open spec fn same_input(g: ExternalMetadata, m: external_services::ExternalMetadata) -> bool {
    match (g, m) {
        (ExternalMetadata::Fantia(a), external_services::ExternalMetadata::Fantia { id }) => a.id == id,
        (ExternalMetadata::Nijie(a), external_services::ExternalMetadata::Nijie { id }) => a.id == id,
        (ExternalMetadata::Pixiv(a), external_services::ExternalMetadata::Pixiv { id }) => a.id == id,
        (
            ExternalMetadata::PixivFanbox(a),
            external_services::ExternalMetadata::PixivFanbox { id, creator_id },
        ) => a.id == id && a.creator_id == creator_id,
        (ExternalMetadata::Seiga(a), external_services::ExternalMetadata::Seiga { id }) => a.id == id,
        (
            ExternalMetadata::Skeb(a),
            external_services::ExternalMetadata::Skeb { id, creator_id },
        ) => a.id == id && a.creator_id == creator_id,
        (ExternalMetadata::Twitter(a), external_services::ExternalMetadata::Twitter { id }) => a.id == id,
        (ExternalMetadata::Website(a), external_services::ExternalMetadata::Website { url }) => a.url == url,
        (ExternalMetadata::Custom(_), external_services::ExternalMetadata::Custom(_)) => true,
        _ => false,
    }
}

impl TryFrom<external_services::ExternalMetadata> for ExternalMetadata {
    type Error = serde_json::Error;

    /// The input form of metadata; custom metadata must be JSON text.
    fn try_from(value: external_services::ExternalMetadata) -> (r: Result<Self, serde_json::Error>)
        ensures
            !(value is Custom) ==> (r matches Ok(g) && same_input(g, value)),
            value matches external_services::ExternalMetadata::Custom(t) ==> (r is Ok <==> json_text_parses(t@)),
            value matches external_services::ExternalMetadata::Custom(t) ==> (r matches Ok(g) ==> g
                == ExternalMetadata::Custom(json_value_of(t@))),
            r matches Ok(g) ==> same_input(g, value),
    {
        match value {
            external_services::ExternalMetadata::Fantia { id } => Ok(ExternalMetadata::Fantia(ExternalMetadataId { id })),
            external_services::ExternalMetadata::Nijie { id } => Ok(ExternalMetadata::Nijie(ExternalMetadataId { id })),
            external_services::ExternalMetadata::Pixiv { id } => Ok(ExternalMetadata::Pixiv(ExternalMetadataId { id })),
            external_services::ExternalMetadata::PixivFanbox { id, creator_id } => Ok(
                ExternalMetadata::PixivFanbox(ExternalMetadataIdCreatorId { id, creator_id }),
            ),
            external_services::ExternalMetadata::Seiga { id } => Ok(ExternalMetadata::Seiga(ExternalMetadataId { id })),
            external_services::ExternalMetadata::Skeb { id, creator_id } => Ok(
                ExternalMetadata::Skeb(ExternalMetadataIdCreatorId { id, creator_id }),
            ),
            external_services::ExternalMetadata::Twitter { id } => Ok(ExternalMetadata::Twitter(ExternalMetadataId { id })),
            external_services::ExternalMetadata::Website { url } => Ok(ExternalMetadata::Website(ExternalMetadataUrl { url })),
            external_services::ExternalMetadata::Custom(text) => match json_from_str(text.as_str()) {
                Ok(v) => Ok(ExternalMetadata::Custom(v)),
                Err(e) => Err(e),
            },
        }
    }
}

impl vstd::std_specs::convert::TryFromSpecImpl<external_services::ExternalMetadata> for ExternalMetadata {
    open spec fn obeys_try_from_spec() -> bool {
        false
    }

    open spec fn try_from_spec(v: external_services::ExternalMetadata) -> Result<Self, serde_json::Error> {
        arbitrary()
    }
}

impl TryFrom<ExternalMetadata> for external_services::ExternalMetadata {
    type Error = serde_json::Error;

    /// The domain form of input metadata; custom metadata becomes the JSON
    /// text that serde_json writes for its document. It never fails.
    fn try_from(value: ExternalMetadata) -> (r: Result<Self, serde_json::Error>)
        ensures
            r matches Ok(m) && same_input(value, m),
            value matches ExternalMetadata::Custom(v) ==> (r matches Ok(
                external_services::ExternalMetadata::Custom(t),
            ) && t@ == json_written(v)),
    {
        match value {
            ExternalMetadata::Fantia(ExternalMetadataId { id }) => Ok(external_services::ExternalMetadata::Fantia { id }),
            ExternalMetadata::Nijie(ExternalMetadataId { id }) => Ok(external_services::ExternalMetadata::Nijie { id }),
            ExternalMetadata::Pixiv(ExternalMetadataId { id }) => Ok(external_services::ExternalMetadata::Pixiv { id }),
            ExternalMetadata::PixivFanbox(ExternalMetadataIdCreatorId { id, creator_id }) => Ok(
                external_services::ExternalMetadata::PixivFanbox { id, creator_id },
            ),
            ExternalMetadata::Seiga(ExternalMetadataId { id }) => Ok(external_services::ExternalMetadata::Seiga { id }),
            ExternalMetadata::Skeb(ExternalMetadataIdCreatorId { id, creator_id }) => Ok(
                external_services::ExternalMetadata::Skeb { id, creator_id },
            ),
            ExternalMetadata::Twitter(ExternalMetadataId { id }) => Ok(external_services::ExternalMetadata::Twitter { id }),
            ExternalMetadata::Website(ExternalMetadataUrl { url }) => Ok(external_services::ExternalMetadata::Website { url }),
            ExternalMetadata::Custom(v) => match json_to_string(&v) {
                Ok(text) => Ok(external_services::ExternalMetadata::Custom(text)),
                Err(e) => Err(e),
            },
        }
    }
}

impl vstd::std_specs::convert::TryFromSpecImpl<ExternalMetadata> for external_services::ExternalMetadata {
    open spec fn obeys_try_from_spec() -> bool {
        false
    }

    open spec fn try_from_spec(v: ExternalMetadata) -> Result<Self, serde_json::Error> {
        arbitrary()
    }
}

/// Turning non-custom metadata into its input form and back gives the same
/// metadata.
pub proof fn lemma_input_metadata_round_trip(
    metadata: external_services::ExternalMetadata,
    input: ExternalMetadata,
    back: external_services::ExternalMetadata,
)
    requires
        !(metadata is Custom),
        same_input(input, metadata),
        same_input(input, back),
    ensures
        back == metadata,
{
}

/// The JSON object `{"<key>":<value>}`.
pub open spec fn json_member(key: Seq<char>, value: Seq<char>) -> Seq<char> {
    seq!['{'] + json_quoted(key) + seq![':'] + value + seq!['}']
}

/// The JSON of an id: its decimal digits as a string.
pub open spec fn id_json(id: u64) -> Seq<char> {
    json_member("id"@, json_quoted(decimal(id as nat)))
}

/// The JSON of an id with the id of its creator.
pub open spec fn id_creator_json(id: u64, creator_id: Seq<char>) -> Seq<char> {
    seq!['{'] + json_quoted("id"@) + seq![':'] + json_quoted(decimal(id as nat)) + seq![',']
        + json_quoted("creator_id"@) + seq![':'] + json_quoted(creator_id) + seq!['}']
}

/// The JSON text of metadata that is not custom: an object with one member
/// named after the service, in camel case, whose value holds the fields.
/// Ids are written as strings.
pub open spec fn metadata_json(m: external_services::ExternalMetadata) -> Seq<char> {
    match m {
        external_services::ExternalMetadata::Fantia { id } => json_member("fantia"@, id_json(id)),
        external_services::ExternalMetadata::Nijie { id } => json_member("nijie"@, id_json(id)),
        external_services::ExternalMetadata::Pixiv { id } => json_member("pixiv"@, id_json(id)),
        external_services::ExternalMetadata::PixivFanbox { id, creator_id } => json_member(
            "pixivFanbox"@,
            id_creator_json(id, creator_id@),
        ),
        external_services::ExternalMetadata::Seiga { id } => json_member("seiga"@, id_json(id)),
        external_services::ExternalMetadata::Skeb { id, creator_id } => json_member(
            "skeb"@,
            id_creator_json(id, creator_id@),
        ),
        external_services::ExternalMetadata::Twitter { id } => json_member("twitter"@, id_json(id)),
        external_services::ExternalMetadata::Website { url } => json_member(
            "website"@,
            json_member("url"@, json_quoted(url@)),
        ),
        external_services::ExternalMetadata::Custom(_) => Seq::empty(),
    }
}

fn push_member_start(out: &mut String, key: &str)
    ensures
        final(out)@ == old(out)@ + seq!['{'] + json_quoted(key@) + seq![':'],
{
    string_append(out, "{");
    proof {
        reveal_strlit("{");
    }
    push_json_quoted(out, key);
    string_append(out, ":");
    proof {
        reveal_strlit(":");
    }
}

fn push_end(out: &mut String)
    ensures
        final(out)@ == old(out)@ + seq!['}'],
{
    string_append(out, "}");
    proof {
        reveal_strlit("}");
    }
}

fn push_id_json(out: &mut String, id: u64)
    ensures
        final(out)@ == old(out)@ + id_json(id),
{
    let ghost start = out@;
    push_member_start(out, "id");
    let digits = decimal_text(id);
    push_json_quoted(out, digits.as_str());
    push_end(out);
    assert(out@ == start + id_json(id));
}

fn push_id_creator_json(out: &mut String, id: u64, creator_id: &str)
    ensures
        final(out)@ == old(out)@ + id_creator_json(id, creator_id@),
{
    let ghost start = out@;
    push_member_start(out, "id");
    let digits = decimal_text(id);
    push_json_quoted(out, digits.as_str());
    string_append(out, ",");
    proof {
        reveal_strlit(",");
    }
    push_json_quoted(out, "creator_id");
    string_append(out, ":");
    proof {
        reveal_strlit(":");
    }
    push_json_quoted(out, creator_id);
    push_end(out);
    assert(out@ == start + id_creator_json(id, creator_id@));
}

fn decimal_text(n: u64) -> (s: String)
    ensures
        s@ == decimal(n as nat),
{
    let mut s = String::new();
    push_decimal(&mut s, n);
    s
}

/// The JSON text of input metadata. Custom metadata is written as
/// `{"custom":<its JSON>}`, the inner JSON as `serde_json` writes its
/// document. Writing never fails.
pub fn input_metadata_json(g: &ExternalMetadata) -> (r: Result<String, serde_json::Error>)
    ensures
        r is Ok,
        forall|m: external_services::ExternalMetadata|
            !(m is Custom) && same_input(*g, m) ==> (r matches Ok(t) && t@ == metadata_json(m)),
        g matches ExternalMetadata::Custom(v) ==> (r matches Ok(t) && t@ == json_member(
            "custom"@,
            json_written(*v),
        )),
{
    let mut out = String::new();
    match g {
        ExternalMetadata::Fantia(a) => {
            push_member_start(&mut out, "fantia");
            push_id_json(&mut out, a.id);
        },
        ExternalMetadata::Nijie(a) => {
            push_member_start(&mut out, "nijie");
            push_id_json(&mut out, a.id);
        },
        ExternalMetadata::Pixiv(a) => {
            push_member_start(&mut out, "pixiv");
            push_id_json(&mut out, a.id);
        },
        ExternalMetadata::PixivFanbox(a) => {
            push_member_start(&mut out, "pixivFanbox");
            push_id_creator_json(&mut out, a.id, a.creator_id.as_str());
        },
        ExternalMetadata::Seiga(a) => {
            push_member_start(&mut out, "seiga");
            push_id_json(&mut out, a.id);
        },
        ExternalMetadata::Skeb(a) => {
            push_member_start(&mut out, "skeb");
            push_id_creator_json(&mut out, a.id, a.creator_id.as_str());
        },
        ExternalMetadata::Twitter(a) => {
            push_member_start(&mut out, "twitter");
            push_id_json(&mut out, a.id);
        },
        ExternalMetadata::Website(a) => {
            push_member_start(&mut out, "website");
            push_member_start(&mut out, "url");
            push_json_quoted(&mut out, a.url.as_str());
            push_end(&mut out);
        },
        ExternalMetadata::Custom(v) => {
            push_member_start(&mut out, "custom");
            match json_to_string(v) {
                Ok(text) => string_append(&mut out, text.as_str()),
                Err(e) => return Err(e),
            }
        },
    }
    push_end(&mut out);
    Ok(out)
}

/// A source as the API shows it. Its metadata is the JSON text of the
/// metadata's input form.
pub struct Source {
    pub id: u128,
    pub external_service: ExternalService,
    pub external_metadata: String,
    pub created_at: NaiveDateTime,
    pub updated_at: NaiveDateTime,
}

impl Source {
    /// The metadata as the JSON document that the API serves: the document
    /// that serde_json reads from the metadata text.
    pub fn external_metadata_value(&self) -> (r: Result<serde_json::Value, serde_json::Error>)
        ensures
            r is Ok <==> json_text_parses(self.external_metadata@),
            r matches Ok(v) ==> v == json_value_of(self.external_metadata@),
    {
        json_from_str(self.external_metadata.as_str())
    }
}

impl TryFrom<sources::Source> for Source {
    type Error = serde_json::Error;

    /// The API form of a source. It fails only for custom metadata whose
    /// text is not JSON.
    fn try_from(source: sources::Source) -> (r: Result<Self, serde_json::Error>)
        ensures
            !(source.external_metadata is Custom) ==> r is Ok,
            source.external_metadata matches external_services::ExternalMetadata::Custom(t) ==> (r is Ok
                <==> json_text_parses(t@)),
            r matches Ok(g) ==> {
                &&& g.id == source.id.0
                &&& shows_service(g.external_service, source.external_service)
                &&& g.created_at == source.created_at
                &&& g.updated_at == source.updated_at
                &&& !(source.external_metadata is Custom) ==> g.external_metadata@ == metadata_json(source.external_metadata)
                &&& source.external_metadata matches external_services::ExternalMetadata::Custom(t)
                    ==> g.external_metadata@ == json_member("custom"@, json_written(json_value_of(t@)))
            },
    {
        let ghost m = source.external_metadata;
        let input = match ExternalMetadata::try_from(source.external_metadata) {
            Ok(input) => input,
            Err(e) => return Err(e),
        };
        let text = match input_metadata_json(&input) {
            Ok(text) => text,
            Err(e) => return Err(e),
        };
        Ok(Source {
            id: source.id.0,
            external_service: ExternalService::from(source.external_service),
            external_metadata: text,
            created_at: source.created_at,
            updated_at: source.updated_at,
        })
    }
}

impl vstd::std_specs::convert::TryFromSpecImpl<sources::Source> for Source {
    open spec fn obeys_try_from_spec() -> bool {
        false
    }

    open spec fn try_from_spec(v: sources::Source) -> Result<Self, serde_json::Error> {
        arbitrary()
    }
}

} // verus!
