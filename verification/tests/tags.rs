use chrono::NaiveDateTime;
use hoarder::domain::entity::tags::{AliasSet, Tag, TagDepth, TagId};

fn strings(v: &[&str]) -> Vec<String> {
    v.iter().map(|s| s.to_string()).collect()
}

#[test]
fn tag_default() {
    let actual = Tag::default();

    assert_eq!(actual, Tag {
        id: TagId::from(0u128),
        name: "".to_string(),
        kana: "".to_string(),
        aliases: AliasSet::new(Vec::new()),
        parent: None,
        children: Vec::new(),
        created_at: NaiveDateTime::MIN,
        updated_at: NaiveDateTime::MIN,
    });
}

#[test]
fn tag_id_root() {
    let actual = TagId::root();

    assert!(actual.0 == 0);
}

#[test]
fn tag_id_is_root() {
    let actual = TagId::root();

    assert!(actual.is_root());
}

#[test]
fn tag_depth_parent() {
    let depth = TagDepth::new(1, 2);
    let actual = depth.parent();

    assert_eq!(actual, 1);
}

#[test]
fn tag_depth_children() {
    let depth = TagDepth::new(1, 2);
    let actual = depth.children();

    assert_eq!(actual, 2);
}

#[test]
fn tag_depth_has_parent() {
    let depth = TagDepth::new(1, 2);
    let actual = depth.has_parent();

    assert!(actual);
}

#[test]
fn tag_depth_has_no_parent() {
    let depth = TagDepth::new(0, 2);
    let actual = depth.has_parent();

    assert!(!actual);
}

#[test]
fn tag_depth_has_children() {
    let depth = TagDepth::new(1, 2);
    let actual = depth.has_children();

    assert!(actual);
}

#[test]
fn tag_depth_has_no_children() {
    let depth = TagDepth::new(1, 0);
    let actual = depth.has_children();

    assert!(!actual);
}

#[test]
fn alias_set_add_all() {
    let mut actual = AliasSet::new(strings(&["baz"]));
    actual.add_all(strings(&["foo", "bar"]));

    assert_eq!(actual, AliasSet::new(strings(&["foo", "bar", "baz"])));
}

#[test]
fn alias_set_remove_all() {
    let mut actual = AliasSet::new(strings(&["foo", "bar", "baz"]));
    actual.remove_all(strings(&["foo", "bar"]));

    assert_eq!(actual, AliasSet::new(strings(&["baz"])));
}

#[test]
fn alias_set_into_inner() {
    let set = AliasSet::new(strings(&["foo", "bar", "baz"]));
    let actual: std::collections::BTreeSet<String> = set.into_inner().into_iter().collect();

    assert_eq!(actual, std::collections::BTreeSet::from(["foo".to_string(), "bar".to_string(), "baz".to_string()]));
}

#[test]
fn alias_set_from_strings() {
    let actual = AliasSet::from(strings(&["foo", "bar", "baz"]));

    assert_eq!(actual, AliasSet::new(strings(&["foo", "bar", "baz"])));
}

#[test]
fn alias_set_keeps_increasing_order_without_duplicates() {
    let set = AliasSet::new(strings(&["ゆるゆり", "b", "a", "b", "ab", "A"]));
    assert_eq!(set.into_inner(), strings(&["A", "a", "ab", "b", "ゆるゆり"]));
}

#[test]
fn alias_set_add_then_remove_leaves_the_rest() {
    let mut set = AliasSet::new(strings(&["x", "y"]));
    set.add_all(strings(&["z"]));
    set.remove_all(strings(&["z", "w"]));
    assert_eq!(set.into_inner(), strings(&["x", "y"]));
}
