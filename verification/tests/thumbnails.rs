use hoarder::application::thumbnails::{
    thumbnail_response, ThumbnailError, ThumbnailOutcome, ThumbnailURLFactory, ThumbnailsHandler,
};
use hoarder::domain::entity::replicas::{ReplicaId, ThumbnailId};
use hoarder::domain::repository::DeleteResult;
use hoarder::infrastructure::config::{Config, ConfigError};
use hoarder::thumbnails;

#[test]
fn thumbnail_url_appends_the_replica_id() {
    let factory = ThumbnailURLFactory::new("/thumbnails/".to_string());
    let actual = factory.url(&ReplicaId(0x66666666_6666_6666_6666_666666666666));
    assert_eq!(actual, "/thumbnails/66666666-6666-6666-6666-666666666666");
}

#[test]
fn thumbnail_url_of_the_storage_crate() {
    let factory = thumbnails::ThumbnailURLFactory::new("https://img.example.com");
    let actual = factory.get(ThumbnailId(0x0123456789abcdef_0011223344556677));
    assert_eq!(actual, "https://img.example.com/01234567-89ab-cdef-0011-223344556677");
}

#[test]
fn thumbnail_responses() {
    let ok = thumbnail_response(ThumbnailOutcome::Found(vec![1, 2, 3]));
    assert_eq!((ok.status, ok.content_type, ok.body), (200, "image/webp", vec![1, 2, 3]));

    let missing = thumbnail_response(ThumbnailOutcome::NotFound);
    assert_eq!((missing.status, missing.content_type, missing.body), (404, "text/plain; charset=utf-8", b"Not Found\n".to_vec()));

    let failed = thumbnails::ThumbnailsService::new(()).show(ThumbnailOutcome::Failed);
    assert_eq!((failed.status, failed.body), (500, b"Internal Server Error\n".to_vec()));
}

#[test]
fn thumbnail_of_a_replica() {
    assert_eq!(ThumbnailsHandler::<()>::thumbnail(Some(vec![9])), Ok(vec![9]));
    assert_eq!(ThumbnailsHandler::<()>::thumbnail(None), Err(ThumbnailError::NoThumbnailAvailable));
}

#[test]
fn delete_results() {
    assert_eq!(DeleteResult::from_affected(0), DeleteResult::NotFound);
    assert_eq!(DeleteResult::from_affected(3), DeleteResult::Deleted(3));
}

#[test]
fn config_errors_and_tls() {
    assert_eq!(ConfigError::missing_value("tls_cert"), ConfigError::MissingValue("TLS_CERT".to_string()));

    let config = Config { port: 8080, tls_cert: Some("cert.pem".to_string()), tls_key: Some("key.pem".to_string()) };
    assert_eq!(config.tls(), Some(("cert.pem".to_string(), "key.pem".to_string())));

    let config = Config { port: 8080, tls_cert: Some("cert.pem".to_string()), tls_key: None };
    assert_eq!(config.tls(), None);
}
