use hoarder::storage::filesystem::{normalize_path, object_path, put_target_check};
use hoarder::domain::repository::DeleteResult;
use hoarder::storage::filesystem::{
    delete_outcome, entry_kind, get_failure, list_failure, put_open_failure, put_opens_existing,
    put_parent_failure, put_reports_existing, Entry, EntryKind, FilesystemObjectsRepository, IoFailure,
    ObjectError, ObjectOverwriteBehavior,
};

const URL: &str = "file:///%E3%82%86%E3%82%8B%E3%82%86%E3%82%8A/77777777-7777-7777-7777-777777777777.png";

fn url() -> String {
    URL.to_string()
}

fn entry(kind: EntryKind) -> Entry {
    Entry {
        name: "77777777-7777-7777-7777-777777777777.png".to_string(),
        url: Some(url()),
        kind,
    }
}

#[test]
fn scheme_succeeds() {
    let actual = FilesystemObjectsRepository::scheme();
    assert_eq!(actual, "file");
}

#[test]
fn repository_keeps_its_root() {
    let repository = FilesystemObjectsRepository::new("/var/lib/hoarder".to_string());
    assert_eq!(repository.root_dir(), "/var/lib/hoarder");
}

#[test]
fn put_parent_failure_classifies() {
    assert_eq!(put_parent_failure(url(), IoFailure::InvalidFilename), ObjectError::UrlInvalid { url: url() });
    assert_eq!(put_parent_failure(url(), IoFailure::InvalidInput), ObjectError::UrlInvalid { url: url() });
    assert_eq!(put_parent_failure(url(), IoFailure::NotFound), ObjectError::UrlInvalid { url: url() });
    assert_eq!(put_parent_failure(url(), IoFailure::AlreadyExists), ObjectError::AlreadyExists { url: url(), entry: None });
    assert_eq!(put_parent_failure(url(), IoFailure::Other), ObjectError::PutFailed { url: url() });
}

#[test]
fn put_opens_existing_only_when_overwriting() {
    assert!(put_opens_existing(IoFailure::AlreadyExists, ObjectOverwriteBehavior::Overwrite));
    assert!(!put_opens_existing(IoFailure::AlreadyExists, ObjectOverwriteBehavior::Fail));
    assert!(!put_opens_existing(IoFailure::IsADirectory, ObjectOverwriteBehavior::Overwrite));
    assert!(!put_opens_existing(IoFailure::Other, ObjectOverwriteBehavior::Overwrite));
}

#[test]
fn put_reports_existing_for_existing_files() {
    assert!(put_reports_existing(IoFailure::AlreadyExists));
    assert!(!put_reports_existing(IoFailure::IsADirectory));
    assert!(!put_reports_existing(IoFailure::NotFound));
}

#[test]
fn put_open_failure_with_existing_file_reports_it() {
    let actual = put_open_failure(url(), IoFailure::AlreadyExists, Some(entry(EntryKind::Object)));
    assert_eq!(actual, ObjectError::AlreadyExists { url: url(), entry: Some(entry(EntryKind::Object)) });
}

#[test]
fn put_open_failure_with_existing_directory_reports_no_entry() {
    let actual = put_open_failure(url(), IoFailure::AlreadyExists, Some(entry(EntryKind::Container)));
    assert_eq!(actual, ObjectError::AlreadyExists { url: url(), entry: None });
    let actual = put_open_failure(url(), IoFailure::AlreadyExists, None);
    assert_eq!(actual, ObjectError::AlreadyExists { url: url(), entry: None });
    let actual = put_open_failure(url(), IoFailure::IsADirectory, Some(entry(EntryKind::Object)));
    assert_eq!(actual, ObjectError::AlreadyExists { url: url(), entry: None });
}

#[test]
fn put_open_failure_other_kinds() {
    assert_eq!(put_open_failure(url(), IoFailure::InvalidFilename, None), ObjectError::UrlInvalid { url: url() });
    assert_eq!(put_open_failure(url(), IoFailure::NotFound, None), ObjectError::UrlInvalid { url: url() });
    assert_eq!(put_open_failure(url(), IoFailure::Other, None), ObjectError::PutFailed { url: url() });
}

#[test]
fn get_and_list_failures() {
    assert_eq!(get_failure(url(), IoFailure::NotFound), ObjectError::NotFound { url: url() });
    assert_eq!(get_failure(url(), IoFailure::InvalidInput), ObjectError::UrlInvalid { url: url() });
    assert_eq!(get_failure(url(), IoFailure::IsADirectory), ObjectError::GetFailed { url: url() });
    assert_eq!(list_failure(url(), IoFailure::NotFound), ObjectError::NotFound { url: url() });
    assert_eq!(list_failure(url(), IoFailure::InvalidFilename), ObjectError::UrlInvalid { url: url() });
    assert_eq!(list_failure(url(), IoFailure::Other), ObjectError::ListFailed { url: url() });
}

#[test]
fn delete_outcomes() {
    assert_eq!(delete_outcome(url(), Ok(())), Ok(DeleteResult::Deleted(1)));
    assert_eq!(delete_outcome(url(), Err(IoFailure::NotFound)), Ok(DeleteResult::NotFound));
    assert_eq!(delete_outcome(url(), Err(IoFailure::InvalidFilename)), Err(ObjectError::UrlInvalid { url: url() }));
    assert_eq!(delete_outcome(url(), Err(IoFailure::IsADirectory)), Err(ObjectError::DeleteFailed { url: url() }));
}

#[test]
fn entry_kinds() {
    assert_eq!(entry_kind(Some(true)), EntryKind::Container);
    assert_eq!(entry_kind(Some(false)), EntryKind::Object);
    assert_eq!(entry_kind(None), EntryKind::Unknown);
}

#[test]
fn object_path_drops_the_leading_slash() {
    assert_eq!(object_path(url(), "/ゆるゆり/a.png"), Ok("ゆるゆり/a.png".to_string()));
    assert_eq!(object_path(url(), "/"), Ok("".to_string()));
    assert_eq!(object_path(url(), "ゆるゆり/a.png"), Err(ObjectError::UrlInvalid { url: url() }));
    assert_eq!(object_path(url(), ""), Err(ObjectError::UrlInvalid { url: url() }));
}

#[test]
fn object_path_normalizes() {
    assert_eq!(object_path(url(), "/a//./b/"), Ok("a/b".to_string()));
    assert_eq!(object_path(url(), "/a/../b"), Ok("b".to_string()));
    assert_eq!(object_path(url(), "/a/.."), Ok("".to_string()));
    assert_eq!(object_path(url(), "/./.../x"), Ok(".../x".to_string()));
}

#[test]
fn object_path_rejects_paths_above_the_root() {
    let url = "file:///../".to_string();
    assert_eq!(object_path(url.clone(), "/../"), Err(ObjectError::UrlInvalid { url: url.clone() }));
    assert_eq!(object_path(url.clone(), "/a/../../b"), Err(ObjectError::UrlInvalid { url: url.clone() }));
    assert_eq!(
        object_path(url.clone(), "/../ゆるゆり/77777777-7777-7777-7777-777777777777.png"),
        Err(ObjectError::UrlInvalid { url }),
    );
}

#[test]
fn normalize_path_of_relative_paths() {
    assert_eq!(normalize_path("a/./b/../c"), Some("a/c".to_string()));
    assert_eq!(normalize_path(""), Some("".to_string()));
    assert_eq!(normalize_path(".."), None);
}

#[test]
fn put_target_check_rejects_the_root() {
    assert_eq!(put_target_check("file:///".to_string(), ""), Err(ObjectError::UrlInvalid { url: "file:///".to_string() }));
    assert_eq!(put_target_check(url(), "ゆるゆり/a.png"), Ok(()));
}
