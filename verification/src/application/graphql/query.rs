//! Pagination rules of the connection queries.

use vstd::prelude::*;

use crate::application::graphql::{rev_of, OrderDirection};
use crate::domain::repository;
use crate::text::{string_append, string_of};

verus! {

/// Errors of the query resolvers.
#[derive(Clone, Copy, Debug, PartialEq, Eq)]
pub enum QueryError {
    PaginationRequired,
    MutuallyExclusive(&'static str, &'static str),
    InvalidCursor,
}

impl QueryError {
    /// The text reported for the error.
    pub fn message(&self) -> (m: String)
        ensures
            *self == QueryError::PaginationRequired ==> m@ == "first or last is required"@,
            self matches QueryError::MutuallyExclusive(a, b) ==> m@ == "both "@ + a@ + " and "@ + b@
                + " cannot be specified"@,
            *self == QueryError::InvalidCursor ==> m@ == "invalid cursor"@,
    {
        match self {
            QueryError::PaginationRequired => string_of("first or last is required"),
            QueryError::MutuallyExclusive(a, b) => {
                let mut m = string_of("both ");
                string_append(&mut m, a);
                string_append(&mut m, " and ");
                string_append(&mut m, b);
                string_append(&mut m, " cannot be specified");
                m
            },
            QueryError::InvalidCursor => string_of("invalid cursor"),
        }
    }
}

/// How a page of tags is fetched: the direction of the scan, the cursors
/// that bound it and the number of tags of the page.
pub struct TagsPagePlan<C> {
    pub rev: bool,
    pub after: Option<C>,
    pub before: Option<C>,
    pub limit: usize,
}

impl<C> TagsPagePlan<C> {
    /// Tags are read in ascending order forwards and in descending order
    /// backwards.
    pub fn order(&self) -> (o: repository::OrderDirection)
        ensures
            self.rev ==> o == repository::OrderDirection::Descending,
            !self.rev ==> o == repository::OrderDirection::Ascending,
    {
        if self.rev {
            repository::OrderDirection::Descending
        } else {
            repository::OrderDirection::Ascending
        }
    }
}

/// Plans a page of all tags: `first` pages forwards from `after`, else
/// `last` pages backwards from `before`; one of them is required.
pub fn plan_tags_page<C>(
    after: Option<C>,
    before: Option<C>,
    first: Option<usize>,
    last: Option<usize>,
) -> (r: Result<TagsPagePlan<C>, QueryError>)
    ensures
        first matches Some(f) ==> r matches Ok(p) && !p.rev && p.after == after && p.before is None
            && p.limit == f,
        first is None ==> (last matches Some(l) ==> r matches Ok(p) && p.rev && p.after is None
            && p.before == before && p.limit == l),
        first is None && last is None ==> r == Err::<TagsPagePlan<C>, QueryError>(
            QueryError::PaginationRequired,
        ),
{
    match (first, last) {
        (Some(first), _) => Ok(TagsPagePlan { rev: false, after, before: None, limit: first }),
        (_, Some(last)) => Ok(TagsPagePlan { rev: true, after: None, before, limit: last }),
        (None, None) => Err(QueryError::PaginationRequired),
    }
}

/// How a page of media is fetched: media are keyed by creation time, and the
/// cursors become lower (`since`) or upper (`until`) bounds depending on the
/// order and the direction of paging.
pub struct MediaPagePlan<C> {
    pub rev: bool,
    pub since: Option<C>,
    pub until: Option<C>,
    pub limit: usize,
    pub order: OrderDirection,
}

/// Plans a page of media in `order`: `first` pages forwards from `after`,
/// else `last` pages backwards from `before`; paging backwards scans in the
/// reverse order.
pub fn plan_media_page<C>(
    order: OrderDirection,
    after: Option<C>,
    before: Option<C>,
    first: Option<usize>,
    last: Option<usize>,
) -> (r: Result<MediaPagePlan<C>, QueryError>)
    ensures
        first is None && last is None ==> r == Err::<MediaPagePlan<C>, QueryError>(
            QueryError::PaginationRequired,
        ),
        first matches Some(f) ==> r matches Ok(p) && !p.rev && p.limit == f && p.order == order && (
        order == OrderDirection::Asc ==> p.since == after && p.until is None) && (order
            == OrderDirection::Desc ==> p.since is None && p.until == after),
        first is None ==> (last matches Some(l) ==> r matches Ok(p) && p.rev && p.limit == l
            && p.order == rev_of(order) && (order == OrderDirection::Asc ==> p.since is None
            && p.until == before) && (order == OrderDirection::Desc ==> p.since == before
            && p.until is None)),
{
    let (rev, since, until, limit) = match (first, last) {
        (None, None) => return Err(QueryError::PaginationRequired),
        (Some(first), _) => match order {
            OrderDirection::Asc => (false, after, None, first),
            OrderDirection::Desc => (false, None, after, first),
        },
        (_, Some(last)) => match order {
            OrderDirection::Asc => (true, None, before, last),
            OrderDirection::Desc => (true, before, None, last),
        },
    };
    let order = if rev {
        order.rev()
    } else {
        order
    };
    Ok(MediaPagePlan { rev, since, until, limit, order })
}

/// Media are filtered by sources or by tags, never by both.
pub fn check_media_filters<S, T>(source_ids: &Option<S>, tag_ids: &Option<T>) -> (r: Result<(), QueryError>)
    ensures
        source_ids is Some && tag_ids is Some ==> r == Err::<(), QueryError>(
            QueryError::MutuallyExclusive("sourceIds", "tagIds"),
        ),
        source_ids is None || tag_ids is None ==> r is Ok,
{
    match (source_ids, tag_ids) {
        (Some(_), Some(_)) => Err(QueryError::MutuallyExclusive("sourceIds", "tagIds")),
        _ => Ok(()),
    }
}

/// Number of items to fetch for a page of `limit` items: one more, to learn
/// whether another page follows.
pub fn fetch_limit(limit: usize) -> (n: u64)
    requires
        limit < u64::MAX,
    ensures
        n == limit + 1,
{
    limit as u64 + 1
}

/// A page cut from the fetched items.
pub struct Page<T> {
    pub has_previous: bool,
    pub has_next: bool,
    pub items: Vec<T>,
}

/// The items of a page: the first `limit` of `items`, in reverse when
/// paging backwards. Paging backwards (`last` given) there is a previous
/// page when more than `limit` items came; paging forwards, a next page.
pub open spec fn page_items<T>(items: Seq<T>, limit: usize, rev: bool) -> Seq<T> {
    let kept = if items.len() > limit {
        items.take(limit as int)
    } else {
        items
    };
    if rev {
        kept.reverse()
    } else {
        kept
    }
}

/// Cuts a page out of the fetched items.
pub fn cut_page<T>(items: Vec<T>, limit: usize, backwards: bool, rev: bool) -> (p: Page<T>)
    ensures
        p.has_previous == (backwards && items@.len() > limit),
        p.has_next == (!backwards && items@.len() > limit),
        p.items@ == page_items(items@, limit, rev),
{
    let ghost all = items@;
    let has_previous = backwards && items.len() > limit;
    let has_next = !backwards && items.len() > limit;
    let mut kept = items;
    if kept.len() > limit {
        kept.truncate(limit);
    }
    assert(kept@ == (if all.len() > limit { all.take(limit as int) } else { all }));
    let mut out: Vec<T> = Vec::new();
    if rev {
        let ghost whole = kept@;
        let mut n = kept.len();
        while n > 0
            invariant
                n == kept@.len(),
                n <= whole.len(),
                kept@ == whole.take(n as int),
                out@ == whole.reverse().take(whole.len() - n),
            decreases n,
        {
            let x = kept.pop().unwrap();
            out.push(x);
            n = n - 1;
            assert(kept@ =~= whole.take(n as int));
            assert(out@ =~= whole.reverse().take(whole.len() - n));
        }
        assert(whole.reverse().take(whole.len() as int) =~= whole.reverse());
    } else {
        out = kept;
    }
    Page { has_previous, has_next, items: out }
}

/// The items of a page are the first `limit` fetched items, or all of them
/// when fewer came: in the fetched order when paging forwards, and in the
/// opposite order when paging in reverse.
pub proof fn lemma_page_items_are_a_prefix<T>(items: Seq<T>, limit: usize, rev: bool)
    ensures
        ({
            let n: int = if items.len() < limit { items.len() as int } else { limit as int };
            let page = page_items(items, limit, rev);
            &&& page.len() == n
            &&& !rev ==> forall|i: int| 0 <= i < n ==> #[trigger] page[i] == items[i]
            &&& rev ==> forall|i: int| 0 <= i < n ==> #[trigger] page[i] == items[n - 1 - i]
        }),
{
}

/// A page holds `limit` items, or all the fetched items when fewer came,
/// and it never reports both a previous and a next page.
pub proof fn lemma_page_bounds<T>(items: Seq<T>, limit: usize, rev: bool, backwards: bool)
    ensures
        page_items(items, limit, rev).len() == if items.len() > limit {
            limit as nat
        } else {
            items.len()
        },
        !((backwards && items.len() > limit) && (!backwards && items.len() > limit)),
{
}

} // verus!
