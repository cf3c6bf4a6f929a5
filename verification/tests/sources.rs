use chrono::{NaiveDate, NaiveDateTime};
use hoarder::application::graphql::sources::{
    ExternalMetadata as InputMetadata, ExternalMetadataId, ExternalMetadataIdCreatorId, ExternalMetadataUrl,
};
use hoarder::domain::entity::external_services::{ExternalMetadata, ExternalService, ExternalServiceError, ExternalServiceId};
use hoarder::domain::entity::sources::{Source, SourceId};
use hoarder::infrastructure::repository::sources::{
    merge_source_update, sources_from_rows, PostgresExternalServiceMetadata, PostgresSourceExternalServiceRow,
    PostgresSourceRow, SourceRowError,
};

fn datetime(y: i32, mo: u32, d: u32, h: u32, mi: u32, s: u32) -> NaiveDateTime {
    NaiveDate::from_ymd_opt(y, mo, d).unwrap().and_hms_opt(h, mi, s).unwrap()
}

fn source(slug: &str, name: &str, metadata: ExternalMetadata) -> Source {
    Source {
        id: SourceId(0x11111111_1111_1111_1111_111111111111),
        external_service: ExternalService {
            id: ExternalServiceId(0x22222222_2222_2222_2222_222222222222),
            slug: slug.to_string(),
            name: name.to_string(),
        },
        external_metadata: metadata,
        created_at: datetime(2022, 6, 4, 19, 34, 0),
        updated_at: datetime(2022, 6, 4, 19, 34, 0),
    }
}

#[test]
fn validate_succeeds_with_fantia() {
    let source = source("fantia", "Fantia", ExternalMetadata::Fantia { id: 1305295 });
    let actual = source.validate();
    assert!(actual.is_ok());
}

#[test]
fn validate_succeeds_with_nijie() {
    let source = source("nijie", "ニジエ", ExternalMetadata::Nijie { id: 323512 });
    let actual = source.validate();
    assert!(actual.is_ok());
}

#[test]
fn validate_succeeds_with_pixiv() {
    let source = source("pixiv", "pixiv", ExternalMetadata::Pixiv { id: 56736941 });
    let actual = source.validate();
    assert!(actual.is_ok());
}

#[test]
fn validate_succeeds_with_pixiv_fanbox() {
    let source = source("pixiv_fanbox", "pixivFANBOX", ExternalMetadata::PixivFanbox { id: 178080, creator_id: "fairyeye".to_string() });
    let actual = source.validate();
    assert!(actual.is_ok());
}

#[test]
fn validate_succeeds_with_seiga() {
    let source = source("seiga", "ニコニコ静画", ExternalMetadata::Seiga { id: 6452903 });
    let actual = source.validate();
    assert!(actual.is_ok());
}

#[test]
fn validate_succeeds_with_skeb() {
    let source = source("skeb", "Skeb", ExternalMetadata::Skeb { id: 18, creator_id: "pieleaf_x2".to_string() });
    let actual = source.validate();
    assert!(actual.is_ok());
}

#[test]
fn validate_succeeds_with_twitter() {
    let source = source("twitter", "Twitter", ExternalMetadata::Twitter { id: 727620202049900544 });
    let actual = source.validate();
    assert!(actual.is_ok());
}

#[test]
fn validate_succeeds_with_website() {
    let source = source("website", "Website", ExternalMetadata::Website { url: "https://www.melonbooks.co.jp/corner/detail.php?corner_id=885".to_string() });
    let actual = source.validate();
    assert!(actual.is_ok());
}

#[test]
fn validate_succeeds_with_custom() {
    let source = source("custom", "Custom", ExternalMetadata::Custom(r#"{"id":42}"#.to_string()));
    let actual = source.validate();
    assert!(actual.is_ok());
}

#[test]
fn validate_fails() {
    let source = source("website", "Website", ExternalMetadata::Fantia { id: 1305295 });
    let actual = source.validate().unwrap_err();
    assert_eq!(actual, ExternalServiceError::InvalidMetadata("website".to_string()));
}

#[test]
fn validate_fails_with_other_service_slug() {
    let source = source("pixiv", "pixiv", ExternalMetadata::Twitter { id: 1 });
    assert_eq!(source.validate().unwrap_err(), ExternalServiceError::InvalidMetadata("pixiv".to_string()));
}

#[test]
fn convert_fantia() {
    let metadata = PostgresExternalServiceMetadata::Fantia { id: 123456789 };
    let actual = ExternalMetadata::try_from(metadata).unwrap();

    assert_eq!(actual, ExternalMetadata::Fantia { id: 123456789 });

    let metadata = ExternalMetadata::Fantia { id: 123456789 };
    let actual = PostgresExternalServiceMetadata::try_from(metadata).unwrap();

    assert_eq!(actual, PostgresExternalServiceMetadata::Fantia { id: 123456789 });
}

#[test]
fn convert_nijie() {
    let metadata = PostgresExternalServiceMetadata::Nijie { id: 123456789 };
    let actual = ExternalMetadata::try_from(metadata).unwrap();

    assert_eq!(actual, ExternalMetadata::Nijie { id: 123456789 });

    let metadata = ExternalMetadata::Nijie { id: 123456789 };
    let actual = PostgresExternalServiceMetadata::try_from(metadata).unwrap();

    assert_eq!(actual, PostgresExternalServiceMetadata::Nijie { id: 123456789 });
}

#[test]
fn convert_pixiv() {
    let metadata = PostgresExternalServiceMetadata::Pixiv { id: 123456789 };
    let actual = ExternalMetadata::try_from(metadata).unwrap();

    assert_eq!(actual, ExternalMetadata::Pixiv { id: 123456789 });

    let metadata = ExternalMetadata::Pixiv { id: 123456789 };
    let actual = PostgresExternalServiceMetadata::try_from(metadata).unwrap();

    assert_eq!(actual, PostgresExternalServiceMetadata::Pixiv { id: 123456789 });
}

#[test]
fn convert_pixiv_fanbox() {
    let metadata = PostgresExternalServiceMetadata::PixivFanbox { id: 123456789, creator_id: "creator_01".to_string() };
    let actual = ExternalMetadata::try_from(metadata).unwrap();

    assert_eq!(actual, ExternalMetadata::PixivFanbox { id: 123456789, creator_id: "creator_01".to_string() });

    let metadata = ExternalMetadata::PixivFanbox { id: 123456789, creator_id: "creator_01".to_string() };
    let actual = PostgresExternalServiceMetadata::try_from(metadata).unwrap();

    assert_eq!(actual, PostgresExternalServiceMetadata::PixivFanbox { id: 123456789, creator_id: "creator_01".to_string() });
}

#[test]
fn convert_seiga() {
    let metadata = PostgresExternalServiceMetadata::Seiga { id: 123456789 };
    let actual = ExternalMetadata::try_from(metadata).unwrap();

    assert_eq!(actual, ExternalMetadata::Seiga { id: 123456789 });

    let metadata = ExternalMetadata::Seiga { id: 123456789 };
    let actual = PostgresExternalServiceMetadata::try_from(metadata).unwrap();

    assert_eq!(actual, PostgresExternalServiceMetadata::Seiga { id: 123456789 });
}

#[test]
fn convert_twitter() {
    let metadata = PostgresExternalServiceMetadata::Twitter { id: 123456789 };
    let actual = ExternalMetadata::try_from(metadata).unwrap();

    assert_eq!(actual, ExternalMetadata::Twitter { id: 123456789 });

    let metadata = ExternalMetadata::Twitter { id: 123456789 };
    let actual = PostgresExternalServiceMetadata::try_from(metadata).unwrap();

    assert_eq!(actual, PostgresExternalServiceMetadata::Twitter { id: 123456789 });
}

#[test]
fn convert_website() {
    let metadata = PostgresExternalServiceMetadata::Website { url: "https://example.com".to_string() };
    let actual = ExternalMetadata::try_from(metadata).unwrap();

    assert_eq!(actual, ExternalMetadata::Website { url: "https://example.com".to_string() });

    let metadata = ExternalMetadata::Website { url: "https://example.com".to_string() };
    let actual = PostgresExternalServiceMetadata::try_from(metadata).unwrap();

    assert_eq!(actual, PostgresExternalServiceMetadata::Website { url: "https://example.com".to_string() });
}

#[test]
fn convert_custom() {
    let metadata = PostgresExternalServiceMetadata::Custom(serde_json::from_str(r#"{ "id": 123456789 }"#).unwrap());
    let actual = ExternalMetadata::try_from(metadata).unwrap();

    assert_eq!(actual, ExternalMetadata::Custom(r#"{"id":123456789}"#.to_string()));

    let metadata = ExternalMetadata::Custom(r#"{"id":123456789}"#.to_string());
    let actual = PostgresExternalServiceMetadata::try_from(metadata).unwrap();

    assert_eq!(actual, PostgresExternalServiceMetadata::Custom(serde_json::from_str(r#"{ "id": 123456789 }"#).unwrap()));
}

#[test]
fn convert_custom_fails_on_invalid_json() {
    let metadata = ExternalMetadata::Custom("{not json".to_string());
    assert!(PostgresExternalServiceMetadata::try_from(metadata).is_err());

    let metadata = ExternalMetadata::Custom("{not json".to_string());
    assert!(InputMetadata::try_from(metadata).is_err());
}

#[test]
fn convert_input_metadata_both_ways() {
    let input = InputMetadata::Skeb(ExternalMetadataIdCreatorId { id: 18, creator_id: "pieleaf_x2".to_string() });
    let actual = ExternalMetadata::try_from(input).unwrap();
    assert_eq!(actual, ExternalMetadata::Skeb { id: 18, creator_id: "pieleaf_x2".to_string() });

    let actual = InputMetadata::try_from(ExternalMetadata::Pixiv { id: 7 }).unwrap();
    assert_eq!(actual, InputMetadata::Pixiv(ExternalMetadataId { id: 7 }));

    let actual = InputMetadata::try_from(ExternalMetadata::Website { url: "https://example.com".to_string() }).unwrap();
    assert_eq!(actual, InputMetadata::Website(ExternalMetadataUrl { url: "https://example.com".to_string() }));

    let input = InputMetadata::Custom(serde_json::from_str(r#"{"a": [1, 2]}"#).unwrap());
    let actual = ExternalMetadata::try_from(input).unwrap();
    assert_eq!(actual, ExternalMetadata::Custom(r#"{"a":[1,2]}"#.to_string()));
}

fn stored_row(metadata: PostgresExternalServiceMetadata) -> PostgresSourceRow {
    PostgresSourceRow {
        id: 5,
        external_service_id: 6,
        external_metadata: metadata,
        created_at: datetime(2022, 1, 1, 0, 0, 0),
        updated_at: datetime(2022, 1, 1, 0, 0, 1),
    }
}

#[test]
fn checked_source_rejects_metadata_of_another_service() {
    let service = ExternalService { id: ExternalServiceId(6), slug: "pixiv".to_string(), name: "pixiv".to_string() };
    let actual = stored_row(PostgresExternalServiceMetadata::Fantia { id: 1 }).into_checked_source(service);
    match actual {
        Err(SourceRowError::Metadata(e)) => assert_eq!(e, ExternalServiceError::InvalidMetadata("pixiv".to_string())),
        _ => panic!("expected a metadata error"),
    }

    let service = ExternalService { id: ExternalServiceId(6), slug: "pixiv".to_string(), name: "pixiv".to_string() };
    let actual = stored_row(PostgresExternalServiceMetadata::Pixiv { id: 1 }).into_checked_source(service).unwrap();
    assert_eq!(actual.id, SourceId(5));
    assert_eq!(actual.external_metadata, ExternalMetadata::Pixiv { id: 1 });
}

#[test]
fn merge_source_update_keeps_stored_values() {
    let (id, metadata) = merge_source_update(stored_row(PostgresExternalServiceMetadata::Seiga { id: 9 }), None, None).unwrap();
    assert_eq!(id, ExternalServiceId(6));
    assert_eq!(metadata, PostgresExternalServiceMetadata::Seiga { id: 9 });

    let (id, metadata) = merge_source_update(
        stored_row(PostgresExternalServiceMetadata::Seiga { id: 9 }),
        Some(ExternalServiceId(7)),
        Some(ExternalMetadata::Nijie { id: 3 }),
    ).unwrap();
    assert_eq!(id, ExternalServiceId(7));
    assert_eq!(metadata, PostgresExternalServiceMetadata::Nijie { id: 3 });
}

#[test]
fn sources_from_joined_rows() {
    let rows = vec![
        PostgresSourceExternalServiceRow {
            source_id: 1,
            source_external_metadata: PostgresExternalServiceMetadata::Twitter { id: 10 },
            source_created_at: datetime(2020, 1, 1, 0, 0, 0),
            source_updated_at: datetime(2020, 1, 1, 0, 0, 0),
            external_service_id: 2,
            external_service_slug: "twitter".to_string(),
            external_service_name: "Twitter".to_string(),
        },
    ];
    let actual = sources_from_rows(rows).unwrap();
    assert_eq!(actual.len(), 1);
    assert_eq!(actual[0].id, SourceId(1));
    assert_eq!(actual[0].external_service.slug, "twitter");
    assert_eq!(actual[0].external_metadata, ExternalMetadata::Twitter { id: 10 });
}

#[test]
fn merge_source_update_replaces_custom_metadata() {
    let stored = PostgresExternalServiceMetadata::Custom(serde_json::from_str(r#"{"old":true}"#).unwrap());
    let (_, metadata) = merge_source_update(
        stored_row(stored),
        None,
        Some(ExternalMetadata::Custom(r#"{ "new" : [1] }"#.to_string())),
    ).unwrap();
    assert_eq!(metadata, PostgresExternalServiceMetadata::Custom(serde_json::from_str(r#"{"new":[1]}"#).unwrap()));

    let actual = merge_source_update(
        stored_row(PostgresExternalServiceMetadata::Seiga { id: 9 }),
        None,
        Some(ExternalMetadata::Custom("not json".to_string())),
    );
    assert!(actual.is_err());
}

#[test]
fn stored_custom_metadata_always_reads() {
    let stored = PostgresExternalServiceMetadata::Custom(serde_json::from_str(r#"{"b": 2, "a": 1}"#).unwrap());
    let service = ExternalService { id: ExternalServiceId(6), slug: "website".to_string(), name: "Website".to_string() };
    let actual = stored_row(stored).into_checked_source(service).unwrap();
    assert_eq!(actual.external_metadata, ExternalMetadata::Custom(r#"{"a":1,"b":2}"#.to_string()));
}
