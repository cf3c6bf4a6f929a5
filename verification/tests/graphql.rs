use hoarder::application::graphql::query::{
    check_media_filters, cut_page, fetch_limit, plan_media_page, plan_tags_page, QueryError,
};
use hoarder::application::graphql::tags::{tag_depth_from_levels, CursorError, TagCursor};
use hoarder::application::graphql::OrderDirection;
use hoarder::domain::entity::tags::TagId;
use hoarder::domain::repository;
use base64::Engine;

#[test]
fn order_direction_rev() {
    assert_eq!(OrderDirection::Asc.rev(), OrderDirection::Desc);
    assert_eq!(OrderDirection::Desc.rev(), OrderDirection::Asc);
    assert_eq!(OrderDirection::Asc.rev().rev(), OrderDirection::Asc);
    assert_eq!(OrderDirection::default(), OrderDirection::Asc);
}

#[test]
fn order_direction_conversions() {
    assert_eq!(OrderDirection::Desc.to_repository(), repository::OrderDirection::Descending);
    assert_eq!(OrderDirection::from_repository(repository::OrderDirection::Ascending), OrderDirection::Asc);
}

#[test]
fn tags_page_plans() {
    let plan = plan_tags_page(Some("a"), Some("b"), Some(10), Some(5)).unwrap();
    assert!(!plan.rev);
    assert_eq!((plan.after, plan.before, plan.limit), (Some("a"), None, 10));
    assert_eq!(plan.order(), repository::OrderDirection::Ascending);

    let plan = plan_tags_page(Some("a"), Some("b"), None, Some(5)).unwrap();
    assert!(plan.rev);
    assert_eq!((plan.after, plan.before, plan.limit), (None, Some("b"), 5));
    assert_eq!(plan.order(), repository::OrderDirection::Descending);

    assert_eq!(plan_tags_page::<&str>(None, None, None, None).err(), Some(QueryError::PaginationRequired));
}

#[test]
fn media_page_plans() {
    let plan = plan_media_page(OrderDirection::Desc, Some(1), Some(2), Some(3), None).unwrap();
    assert_eq!((plan.rev, plan.since, plan.until, plan.limit, plan.order), (false, None, Some(1), 3, OrderDirection::Desc));

    let plan = plan_media_page(OrderDirection::Asc, Some(1), Some(2), None, Some(4)).unwrap();
    assert_eq!((plan.rev, plan.since, plan.until, plan.limit, plan.order), (true, None, Some(2), 4, OrderDirection::Desc));

    let plan = plan_media_page(OrderDirection::Desc, Some(1), Some(2), None, Some(4)).unwrap();
    assert_eq!((plan.rev, plan.since, plan.until, plan.order), (true, Some(2), None, OrderDirection::Asc));

    assert_eq!(plan_media_page::<u8>(OrderDirection::Asc, None, None, None, None).err(), Some(QueryError::PaginationRequired));
}

#[test]
fn media_filters_are_exclusive() {
    assert_eq!(check_media_filters(&Some(1), &Some(2)), Err(QueryError::MutuallyExclusive("sourceIds", "tagIds")));
    assert_eq!(check_media_filters::<u8, u8>(&None, &Some(2)), Ok(()));
}

#[test]
fn pages_are_cut_and_reversed() {
    assert_eq!(fetch_limit(10), 11);

    let page = cut_page(vec![1, 2, 3, 4], 3, false, false);
    assert_eq!((page.has_previous, page.has_next, page.items), (false, true, vec![1, 2, 3]));

    let page = cut_page(vec![4, 3, 2, 1], 3, true, true);
    assert_eq!((page.has_previous, page.has_next, page.items), (true, false, vec![2, 3, 4]));

    let page = cut_page(vec![2, 1], 3, true, true);
    assert_eq!((page.has_previous, page.has_next, page.items), (false, false, vec![1, 2]));
}

#[test]
fn tag_depth_counts_levels() {
    let depth = tag_depth_from_levels(&vec![(true, true), (true, false), (false, true), (false, false), (true, true)]);
    assert_eq!((depth.parent(), depth.children()), (2, 2));

    let depth = tag_depth_from_levels(&vec![]);
    assert_eq!((depth.parent(), depth.children()), (0, 0));
}

#[test]
fn tag_cursor_round_trip() {
    let cursor = TagCursor::new("ゆるゆり".to_string(), 0x744b7274_371b_4790_8f5a_df4d76e983ba);
    let text = cursor.encode_cursor();
    assert_eq!(text, base64_of("ゆるゆり\0744b7274-371b-4790-8f5a-df4d76e983ba"));

    let (kana, id) = TagCursor::decode_cursor(&text).unwrap().into_inner();
    assert_eq!(kana, "ゆるゆり");
    assert_eq!(id, TagId(0x744b7274_371b_4790_8f5a_df4d76e983ba));
}

#[test]
fn tag_cursor_errors() {
    assert_eq!(TagCursor::decode_cursor("@@@").err(), Some(CursorError::Base64));
    assert_eq!(TagCursor::decode_cursor(&base64_bytes(&[0xff, 0xfe])).err(), Some(CursorError::Utf8));
    assert_eq!(TagCursor::decode_cursor(&base64_of("no delimiter")).err(), Some(CursorError::InvalidCursor));
    assert_eq!(TagCursor::decode_cursor(&base64_of("kana\0not-a-uuid")).err(), Some(CursorError::Uuid));
}

fn base64_of(s: &str) -> String {
    base64_bytes(s.as_bytes())
}

fn base64_bytes(b: &[u8]) -> String {
    base64::engine::general_purpose::STANDARD.encode(b)
}

#[test]
fn query_error_messages() {
    assert_eq!(QueryError::PaginationRequired.message(), "first or last is required");
    assert_eq!(QueryError::MutuallyExclusive("sourceIds", "tagIds").message(), "both sourceIds and tagIds cannot be specified");
    assert_eq!(QueryError::InvalidCursor.message(), "invalid cursor");
}

#[test]
fn order_direction_conversions_round_trip() {
    let r: repository::OrderDirection = OrderDirection::Desc.into();
    assert_eq!(r, repository::OrderDirection::Descending);
    let back: OrderDirection = r.into();
    assert_eq!(back, OrderDirection::Desc);
    let a: OrderDirection = repository::OrderDirection::Ascending.into();
    let again: repository::OrderDirection = a.into();
    assert_eq!(again, repository::OrderDirection::Ascending);
}
