use chrono::{NaiveDate, NaiveDateTime};
use hoarder::domain::entity::tags::{AliasSet, Tag, TagDepth, TagError, TagId};
use hoarder::infrastructure::repository::tags::{
    assemble_tag_relatives, check_deletable, like_pattern, merge_tag_update, parent_or_root, reject_root,
    root_listing_depth, single_tag, sort_by_request_order, PostgresTagError, PostgresTagRow, TagRelation,
    TagRelativeRow, TagRelations,
};

fn at(h: u32) -> NaiveDateTime {
    NaiveDate::from_ymd_opt(2022, 6, 1).unwrap().and_hms_opt(h, 0, 0).unwrap()
}

fn relation(id: u128, name: &str) -> TagRelation {
    TagRelation {
        id: TagId(id),
        name: name.to_string(),
        kana: name.to_string(),
        aliases: vec![format!("{name}-alias")],
        created_at: at(0),
        updated_at: at(1),
    }
}

fn self_row(id: u128, name: &str) -> TagRelativeRow {
    TagRelativeRow { distance: 0, ancestor: relation(id, name), descendant: relation(id, name) }
}

fn link_row(parent: (u128, &str), child: (u128, &str)) -> TagRelativeRow {
    TagRelativeRow { distance: 1, ancestor: relation(parent.0, parent.1), descendant: relation(child.0, child.1) }
}

const ROOT: (u128, &str) = (0, "root");
const A: (u128, &str) = (1, "a");
const B: (u128, &str) = (2, "b");
const C: (u128, &str) = (3, "c");

/// root -> a -> b, root -> c, in the order of the relatives query.
fn rows() -> Vec<TagRelativeRow> {
    vec![
        self_row(ROOT.0, ROOT.1),
        self_row(A.0, A.1),
        self_row(B.0, B.1),
        self_row(C.0, C.1),
        link_row(ROOT, A),
        link_row(ROOT, C),
        link_row(A, B),
    ]
}

fn names(tags: &[Tag]) -> Vec<&str> {
    tags.iter().map(|t| t.name.as_str()).collect()
}

#[test]
fn relations_link_parents_and_children() {
    let relations = TagRelations::from_rows(rows());
    assert_eq!(relations.relations.len(), 4);
    assert_eq!(relations.children[0], vec![1, 3]);
    assert_eq!(relations.children[1], vec![2]);
    assert_eq!(relations.parents[2], Some(1));
    assert_eq!(relations.parents[0], None);
}

#[test]
fn relatives_expand_children_and_hide_the_root() {
    let tags = assemble_tag_relatives(rows(), &vec![TagId(A.0)], TagDepth::new(1, 1), false);
    assert_eq!(names(&tags), vec!["a"]);
    assert!(tags[0].parent.is_none());
    assert_eq!(names(&tags[0].children), vec!["b"]);
    assert!(tags[0].children[0].children.is_empty());
    assert_eq!(tags[0].aliases, AliasSet::new(vec!["a-alias".to_string()]));
}

#[test]
fn relatives_follow_parent_chain() {
    let tags = assemble_tag_relatives(rows(), &vec![TagId(B.0)], TagDepth::new(2, 0), false);
    assert_eq!(names(&tags), vec!["b"]);
    let parent = tags[0].parent.as_ref().unwrap();
    assert_eq!(parent.name, "a");
    assert!(parent.parent.is_none());
    assert!(parent.children.is_empty());
    assert!(tags[0].children.is_empty());
}

#[test]
fn relatives_follow_map_order_after_root_removal() {
    let ids = vec![TagId(A.0), TagId(B.0), TagId(C.0)];
    let tags = assemble_tag_relatives(rows(), &ids, TagDepth::new(0, 0), false);
    assert_eq!(names(&tags), vec!["c", "a", "b"]);

    let sorted = sort_by_request_order(tags, &ids);
    assert_eq!(names(&sorted), vec!["a", "b", "c"]);
}

#[test]
fn relatives_of_the_root_are_its_children() {
    let tags = assemble_tag_relatives(rows(), &vec![TagId(A.0), TagId(C.0)], TagDepth::new(1, 2), true);
    assert_eq!(names(&tags), vec!["a", "c"]);
    assert!(tags[0].parent.is_none());
    assert_eq!(names(&tags[0].children), vec!["b"]);

    let none = assemble_tag_relatives(rows(), &vec![TagId(A.0)], TagDepth::new(1, 0), true);
    assert!(none.is_empty());

    let without_root = assemble_tag_relatives(rows()[1..].iter().map(|r| TagRelativeRow {
        distance: r.distance,
        ancestor: relation(r.ancestor.id.0, &r.ancestor.name),
        descendant: relation(r.descendant.id.0, &r.descendant.name),
    }).collect(), &vec![TagId(A.0)], TagDepth::new(1, 1), true);
    assert!(without_root.is_empty());
}

#[test]
fn relatives_skip_unrequested_tags() {
    let tags = assemble_tag_relatives(rows(), &vec![TagId(42)], TagDepth::new(1, 1), false);
    assert!(tags.is_empty());
}

#[test]
fn sort_puts_unrequested_tags_last_by_id() {
    let tags = assemble_tag_relatives(rows(), &vec![TagId(A.0), TagId(B.0), TagId(C.0)], TagDepth::new(0, 0), false);
    let sorted = sort_by_request_order(tags, &vec![TagId(B.0)]);
    assert_eq!(names(&sorted), vec!["b", "a", "c"]);
}

#[test]
fn root_listing_depth_adds_a_level() {
    let depth = root_listing_depth(TagDepth::new(3, 1), true);
    assert_eq!((depth.parent(), depth.children()), (1, 2));
    let depth = root_listing_depth(TagDepth::new(3, 1), false);
    assert_eq!((depth.parent(), depth.children()), (3, 1));
}

#[test]
fn like_pattern_escapes_wildcards() {
    assert_eq!(like_pattern("ゆる"), "%ゆる%");
    assert_eq!(like_pattern(r"50%_a\b"), r"%50\%\_a\\b%");
}

#[test]
fn root_tag_is_refused() {
    assert_eq!(reject_root(TagId::root(), PostgresTagError::RootUpdated), Err(PostgresTagError::RootUpdated));
    assert_eq!(reject_root(TagId(5), PostgresTagError::RootDeleted), Ok(()));
}

#[test]
fn delete_needs_recursive_for_children() {
    assert_eq!(check_deletable(3, false), Err(PostgresTagError::ChildrenExist(2)));
    assert_eq!(check_deletable(3, true), Ok(()));
    assert_eq!(check_deletable(1, false), Ok(()));
    assert_eq!(check_deletable(0, false), Ok(()));
}

#[test]
fn new_tags_hang_from_the_root_by_default() {
    assert_eq!(parent_or_root(None), TagId(0));
    assert_eq!(parent_or_root(Some(TagId(9))), TagId(9));
}

#[test]
fn single_tag_takes_the_last_result() {
    let tags = assemble_tag_relatives(rows(), &vec![TagId(A.0), TagId(B.0)], TagDepth::new(0, 0), false);
    assert_eq!(single_tag(tags, TagId(1)).unwrap().name, "b");
    assert_eq!(single_tag(Vec::new(), TagId(7)), Err(TagError::NotFound(TagId(7))));
}

#[test]
fn update_replaces_given_values_and_edits_aliases() {
    let current = PostgresTagRow {
        id: 1,
        name: "赤座あかり".to_string(),
        kana: "あかざあかり".to_string(),
        aliases: vec!["アッカリーン".to_string(), "あかり".to_string()],
        created_at: at(0),
        updated_at: at(1),
    };
    let update = merge_tag_update(current, None, Some("あかざ".to_string()), vec!["主人公".to_string()], vec!["あかり".to_string()]);
    assert_eq!(update.name, "赤座あかり");
    assert_eq!(update.kana, "あかざ");
    assert_eq!(update.aliases, AliasSet::new(vec!["アッカリーン".to_string(), "主人公".to_string()]));
}

#[test]
fn tag_from_row_has_no_relatives() {
    let tag = PostgresTagRow {
        id: 3,
        name: "n".to_string(),
        kana: "k".to_string(),
        aliases: vec!["y".to_string(), "x".to_string(), "y".to_string()],
        created_at: at(2),
        updated_at: at(3),
    }.into_tag();
    assert_eq!(tag.id, TagId(3));
    assert_eq!(tag.aliases.clone().into_inner(), vec!["x".to_string(), "y".to_string()]);
    assert!(tag.parent.is_none() && tag.children.is_empty());
    assert_eq!(tag.created_at, at(2));
}
