use chrono::{NaiveDate, NaiveDateTime};
use hoarder::application::graphql::external_services::ExternalService as ApiExternalService;
use hoarder::application::graphql::sources::{input_metadata_json, ExternalMetadata as InputMetadata, Source as ApiSource};
use hoarder::domain::entity::external_services::{ExternalMetadata, ExternalService, ExternalServiceId};
use hoarder::domain::entity::sources::{Source, SourceId};

fn datetime(y: i32, mo: u32, d: u32, h: u32, mi: u32, s: u32) -> NaiveDateTime {
    NaiveDate::from_ymd_opt(y, mo, d).unwrap().and_hms_opt(h, mi, s).unwrap()
}

fn source(metadata: ExternalMetadata) -> Source {
    Source {
        id: SourceId(0x11111111_1111_1111_1111_111111111111),
        external_service: ExternalService {
            id: ExternalServiceId(0x33333333_3333_3333_3333_333333333333),
            slug: "pixiv".to_string(),
            name: "pixiv".to_string(),
        },
        external_metadata: metadata,
        created_at: datetime(2022, 6, 1, 12, 34, 56),
        updated_at: datetime(2022, 6, 1, 0, 5, 0),
    }
}

fn json(text: &str) -> serde_json::Value {
    serde_json::from_str(text).unwrap()
}

#[test]
fn api_source_keeps_fields() {
    let api = ApiSource::try_from(source(ExternalMetadata::Pixiv { id: 56736941 })).unwrap();
    assert_eq!(api.id, 0x11111111_1111_1111_1111_111111111111);
    assert_eq!(api.external_service, ApiExternalService {
        id: 0x33333333_3333_3333_3333_333333333333,
        slug: "pixiv".to_string(),
        name: "pixiv".to_string(),
    });
    assert_eq!(api.created_at, datetime(2022, 6, 1, 12, 34, 56));
    assert_eq!(api.updated_at, datetime(2022, 6, 1, 0, 5, 0));
}

#[test]
fn api_source_metadata_text_of_ids() {
    let api = ApiSource::try_from(source(ExternalMetadata::Pixiv { id: 56736941 })).unwrap();
    assert_eq!(api.external_metadata, r#"{"pixiv":{"id":"56736941"}}"#);
    let api = ApiSource::try_from(source(ExternalMetadata::Fantia { id: 0 })).unwrap();
    assert_eq!(api.external_metadata, r#"{"fantia":{"id":"0"}}"#);
    let api = ApiSource::try_from(source(ExternalMetadata::Twitter { id: u64::MAX })).unwrap();
    assert_eq!(api.external_metadata, r#"{"twitter":{"id":"18446744073709551615"}}"#);
}

#[test]
fn api_source_metadata_text_with_creator() {
    let api = ApiSource::try_from(source(ExternalMetadata::PixivFanbox { id: 17, creator_id: "fairy".to_string() })).unwrap();
    assert_eq!(api.external_metadata, r#"{"pixivFanbox":{"id":"17","creator_id":"fairy"}}"#);
    let api = ApiSource::try_from(source(ExternalMetadata::Skeb { id: 3, creator_id: "a\"b".to_string() })).unwrap();
    assert_eq!(json(&api.external_metadata), json(r#"{"skeb":{"id":"3","creator_id":"a\"b"}}"#));
}

#[test]
fn api_source_metadata_text_escapes_strings() {
    let url = "https://example.com/\u{1}\n\t\\ゆるゆり";
    let api = ApiSource::try_from(source(ExternalMetadata::Website { url: url.to_string() })).unwrap();
    assert_eq!(api.external_metadata, "{\"website\":{\"url\":\"https://example.com/\\u0001\\n\\t\\\\ゆるゆり\"}}");
    let value = json(&api.external_metadata);
    assert_eq!(value["website"]["url"], serde_json::Value::String(url.to_string()));
}

#[test]
fn api_source_custom_metadata() {
    let api = ApiSource::try_from(source(ExternalMetadata::Custom(r#"{ "a" : [1, 2] }"#.to_string()))).unwrap();
    assert_eq!(json(&api.external_metadata), json(r#"{"custom":{"a":[1,2]}}"#));
}

#[test]
fn api_source_custom_metadata_fails_on_invalid_json() {
    let actual = ApiSource::try_from(source(ExternalMetadata::Custom("{".to_string())));
    assert!(actual.is_err());
}

#[test]
fn input_metadata_json_of_each_shape() {
    let input = InputMetadata::try_from(ExternalMetadata::Seiga { id: 6452903 }).unwrap();
    assert_eq!(input_metadata_json(&input).unwrap(), r#"{"seiga":{"id":"6452903"}}"#);
    let input = InputMetadata::try_from(ExternalMetadata::Nijie { id: 9 }).unwrap();
    assert_eq!(input_metadata_json(&input).unwrap(), r#"{"nijie":{"id":"9"}}"#);
    let input = InputMetadata::try_from(ExternalMetadata::Custom("[true,null]".to_string())).unwrap();
    assert_eq!(input_metadata_json(&input).unwrap(), r#"{"custom":[true,null]}"#);
}

#[test]
fn api_source_metadata_value() {
    let api = ApiSource::try_from(source(ExternalMetadata::Pixiv { id: 56736941 })).unwrap();
    assert_eq!(api.external_metadata_value().unwrap(), json(r#"{"pixiv":{"id":"56736941"}}"#));
    let api = ApiSource::try_from(source(ExternalMetadata::Custom(r#"[1, {"a": null}]"#.to_string()))).unwrap();
    assert_eq!(api.external_metadata_value().unwrap(), json(r#"{"custom":[1,{"a":null}]}"#));
}
