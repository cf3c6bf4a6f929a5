use chrono::NaiveDateTime;
use hoarder::application::graphql::tags::{tag_edge, Tag as ApiTag, TagChild, TagParent, TagTagTypeInput};
use hoarder::application::server::EngineError;
use hoarder::domain::entity::tag_types::TagTypeId;
use hoarder::domain::entity::tags::{AliasSet, Tag, TagId};

fn tag(id: u128, name: &str, aliases: &[&str]) -> Tag {
    Tag {
        id: TagId(id),
        name: name.to_string(),
        kana: format!("{}-kana", name),
        aliases: AliasSet::new(aliases.iter().map(|a| a.to_string()).collect()),
        parent: None,
        children: Vec::new(),
        created_at: NaiveDateTime::MIN,
        updated_at: NaiveDateTime::MIN,
    }
}

fn family() -> Tag {
    let mut grandparent = tag(1, "grandparent", &[]);
    grandparent.children = vec![tag(99, "ignored", &[])];
    let mut parent = tag(2, "parent", &["p2", "p1"]);
    parent.parent = Some(Box::new(grandparent));
    let mut child_a = tag(4, "a", &[]);
    child_a.children = vec![tag(6, "a1", &[]), tag(7, "a2", &[])];
    child_a.parent = Some(Box::new(tag(98, "ignored", &[])));
    let child_b = tag(5, "b", &["b"]);
    let mut me = tag(3, "me", &["z", "y", "z"]);
    me.parent = Some(Box::new(parent));
    me.children = vec![child_a, child_b];
    me
}

#[test]
fn api_tag_keeps_fields_and_sorted_aliases() {
    let api = ApiTag::from(family());
    assert_eq!(api.id, 3);
    assert_eq!(api.name, "me");
    assert_eq!(api.kana, "me-kana");
    assert_eq!(api.aliases, vec!["y".to_string(), "z".to_string()]);
    assert_eq!(api.created_at, NaiveDateTime::MIN);
}

#[test]
fn api_tag_parent_chain_drops_children() {
    let api = ApiTag::from(family());
    let parent = api.parent.expect("parent");
    assert_eq!(parent.id, 2);
    assert_eq!(parent.aliases, vec!["p1".to_string(), "p2".to_string()]);
    let grandparent = parent.parent.expect("grandparent");
    assert_eq!(grandparent.id, 1);
    assert!(grandparent.parent.is_none());
}

#[test]
fn api_tag_children_keep_order_and_drop_parents() {
    let api = ApiTag::from(family());
    let ids: Vec<u128> = api.children.iter().map(|c| c.id).collect();
    assert_eq!(ids, vec![4, 5]);
    let grand: Vec<u128> = api.children[0].children.iter().map(|c| c.id).collect();
    assert_eq!(grand, vec![6, 7]);
    assert!(api.children[1].children.is_empty());
}

#[test]
fn tag_parent_and_child_from_tag() {
    let p = TagParent::from(family());
    assert_eq!(p.id, 3);
    assert_eq!(p.parent.as_ref().map(|x| x.id), Some(2));
    let c = TagChild::from(family());
    assert_eq!(c.children.len(), 2);
    assert_eq!(c.children[0].children[1].name, "a2");
}

#[test]
fn tag_edge_points_at_the_tag() {
    let (cursor, api) = tag_edge(family());
    let (kana, id) = cursor.into_inner();
    assert_eq!(kana, "me-kana");
    assert_eq!(id, TagId(3));
    assert_eq!(api.id, 3);
}

#[test]
fn tag_tag_type_input_into_ids() {
    let (tag_id, tag_type_id): (TagId, TagTypeId) = TagTagTypeInput { tag_id: 10, tag_type_id: 20 }.into();
    assert_eq!(tag_id, TagId(10));
    assert_eq!(tag_type_id, TagTypeId(20));
}

#[test]
fn engine_error_messages() {
    assert_eq!(EngineError::Serve.message(), "error starting server");
    assert_eq!(EngineError::Certificate.message(), "error loading certificate");
}
