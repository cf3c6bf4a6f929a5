use std::collections::HashSet;

use hoarder::application::graphql::tags::TagType as ApiTagType;
use hoarder::domain::entity::tag_types::{TagType, TagTypeId};

#[test]
fn tag_type_hash_equals_by_id() {
    let a = TagType {
        id: TagTypeId(0x44444444_4444_4444_4444_444444444444),
        slug: "foo".to_string(),
        name: "foo".to_string(),
    };

    let b = TagType {
        id: TagTypeId(0x44444444_4444_4444_4444_444444444444),
        slug: "bar".to_string(),
        name: "bar".to_string(),
    };

    let mut hash_set = HashSet::new();
    hash_set.insert(a);

    let actual = hash_set.contains(&b);

    assert!(actual);
}

#[test]
fn tag_type_hash_not_equals_by_id() {
    let a = TagType {
        id: TagTypeId(0x44444444_4444_4444_4444_444444444444),
        slug: "foo".to_string(),
        name: "foo".to_string(),
    };

    let b = TagType {
        id: TagTypeId(0x55555555_5555_5555_5555_555555555555),
        slug: "foo".to_string(),
        name: "foo".to_string(),
    };

    let mut hash_set = HashSet::new();
    hash_set.insert(a);

    let actual = hash_set.contains(&b);

    assert!(!actual);
}

#[test]
fn tag_types_equal_by_id_only() {
    let a = TagType { id: TagTypeId(7), slug: "a".to_string(), name: "A".to_string() };
    let b = TagType { id: TagTypeId(7), slug: "b".to_string(), name: "B".to_string() };
    let c = TagType { id: TagTypeId(8), slug: "a".to_string(), name: "A".to_string() };
    assert!(a == b);
    assert!(a != c);
}

#[test]
fn api_tag_type_from_tag_type() {
    let t = TagType { id: TagTypeId(9), slug: "character".to_string(), name: "キャラクター".to_string() };
    let api = ApiTagType::from(t);
    assert_eq!(api.id, 9);
    assert_eq!(api.slug, "character");
    assert_eq!(api.name, "キャラクター");
}
