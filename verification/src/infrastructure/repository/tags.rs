//! Assembling tags and their relatives from the rows of the closure table
//! `tag_paths`, and the rules that the tags repository applies around its
//! queries.

use vstd::prelude::*;

use std::collections::HashSet;

use chrono::NaiveDateTime;

use crate::text::{replaced, str_replace_char, string_append, string_push};
use crate::domain::entity::tags::{AliasSet, Tag, TagDepth, TagError, TagId};
use crate::infrastructure::repository::index_map::{
    entries_after_insert, index_map_entries, index_map_get, index_map_get_index, index_map_insert,
    index_map_len, index_map_new,
    entries_after_swap_remove, index_map_swap_remove, key_position, lemma_key_position,
};

verus! {

/// One tag as read from a row of the relatives query.
pub struct TagRelation {
    pub id: TagId,
    pub name: String,
    pub kana: String,
    pub aliases: Vec<String>,
    pub created_at: NaiveDateTime,
    pub updated_at: NaiveDateTime,
}

/// A row of the relatives query: a pair of tags at `distance` in the
/// hierarchy. Distance 0 rows introduce a tag, distance 1 rows link a parent
/// (`ancestor`) to a child (`descendant`).
pub struct TagRelativeRow {
    pub distance: i32,
    pub ancestor: TagRelation,
    pub descendant: TagRelation,
}

/// The tags of a query result and the links between them. A tag introduced
/// twice keeps its first place in `index` but points at its latest node.
pub struct TagRelations {
    pub relations: Vec<TagRelation>,
    pub parents: Vec<Option<usize>>,
    pub children: Vec<Vec<usize>>,
    pub index: indexmap::IndexMap<u128, usize>,
}

/// Mathematical model of [`TagRelations`].
pub ghost struct RelationsModel {
    pub relations: Seq<TagRelation>,
    pub parents: Seq<Option<usize>>,
    pub children: Seq<Seq<usize>>,
    pub entries: Seq<(u128, usize)>,
}

impl TagRelations {
    pub open spec fn model(self) -> RelationsModel {
        RelationsModel {
            relations: self.relations@,
            parents: self.parents@,
            children: self.children@.map_values(|c: Vec<usize>| c@),
            entries: index_map_entries(self.index),
        }
    }
}

/// The relations before any row was read.
pub open spec fn empty_relations() -> RelationsModel {
    RelationsModel {
        relations: Seq::empty(),
        parents: Seq::empty(),
        children: Seq::empty(),
        entries: Seq::empty(),
    }
}

/// The effect of one row.
pub open spec fn relations_step(m: RelationsModel, row: TagRelativeRow) -> RelationsModel {
    if row.distance == 0 {
        RelationsModel {
            relations: m.relations.push(row.ancestor),
            parents: m.parents.push(None),
            children: m.children.push(Seq::empty()),
            entries: entries_after_insert(m.entries, row.ancestor.id.0, m.relations.len() as usize),
        }
    } else {
        match (key_position(m.entries, row.ancestor.id.0), key_position(m.entries, row.descendant.id.0)) {
            (Some(i), Some(j)) => {
                let a = m.entries[i].1 as int;
                let d = m.entries[j].1 as int;
                RelationsModel {
                    children: m.children.update(a, m.children[a].push(d as usize)),
                    parents: m.parents.update(d, Some(a as usize)),
                    ..m
                }
            },
            _ => m,
        }
    }
}

/// The relations after reading `rows` in order.
pub open spec fn relations_of(rows: Seq<TagRelativeRow>) -> RelationsModel
    decreases rows.len(),
{
    if rows.len() == 0 {
        empty_relations()
    } else {
        relations_step(relations_of(rows.drop_last()), rows.last())
    }
}

/// Every index stored in the model points at a node.
pub open spec fn relations_wf(m: RelationsModel) -> bool {
    &&& m.parents.len() == m.relations.len()
    &&& m.children.len() == m.relations.len()
    &&& forall|i: int| 0 <= i < m.entries.len() ==> (#[trigger] m.entries[i]).1 < m.relations.len()
    &&& forall|i: int|
        0 <= i < m.parents.len() ==> (#[trigger] m.parents[i] matches Some(p) ==> p
            < m.relations.len())
    &&& forall|i: int, k: int|
        0 <= i < m.children.len() && 0 <= k < m.children[i].len() ==> #[trigger] m.children[i][k]
            < m.relations.len()
}

impl TagRelations {
    /// Reads the rows of the relatives query in order.
    pub fn from_rows(rows: Vec<TagRelativeRow>) -> (r: Self)
        ensures
            r.model() == relations_of(rows@),
            relations_wf(r.model()),
    {
        let ghost all = rows@;
        let mut r = TagRelations {
            relations: Vec::new(),
            parents: Vec::new(),
            children: Vec::new(),
            index: index_map_new(),
        };
        assert(r.model().children =~= Seq::<Seq<usize>>::empty());
        assert(r.model().relations =~= Seq::<TagRelation>::empty());
        assert(r.model().parents =~= Seq::<Option<usize>>::empty());
        assert(r.model() == empty_relations());
        let ghost mut done: int = 0;
        for row in it: rows
            invariant
                all == it.seq(),
                done == it.index(),
                r.model() == relations_of(all.take(done)),
                relations_wf(r.model()),
        {
            let ghost before = r.model();
            let ghost current = row;
            if row.distance == 0 {
                let n = r.relations.len();
                let id = row.ancestor.id.0;
                r.relations.push(row.ancestor);
                r.parents.push(None);
                r.children.push(Vec::new());
                let _ = index_map_insert(&mut r.index, id, n);
                proof {
                    assert(r.model().children =~= before.children.push(Seq::empty()));
                    let e = before.entries;
                    match key_position(e, id) {
                        Some(i) => {
                            assert(forall|k: int| 0 <= k < e.len() ==> #[trigger] e.update(i, (id, n))[k].1 < r.relations@.len());
                        },
                        None => {
                            assert(forall|k: int| 0 <= k < e.len() + 1 ==> #[trigger] e.push((id, n))[k].1 < r.relations@.len());
                        },
                    }
                }
            } else {
                let a = index_map_get(&r.index, row.ancestor.id.0);
                let d = index_map_get(&r.index, row.descendant.id.0);
                proof {
                    lemma_key_position(before.entries, row.ancestor.id.0);
                    lemma_key_position(before.entries, row.descendant.id.0);
                }
                match (a, d) {
                    (Some(a), Some(d)) => {
                        r.children[a].push(d);
                        r.parents.set(d, Some(a));
                        proof {
                            assert(r.model().children =~= before.children.update(
                                a as int,
                                before.children[a as int].push(d),
                            ));
                        }
                    },
                    _ => {},
                }
            }
            proof {
                assert(all.take(done + 1).drop_last() == all.take(done));
                assert(all.take(done + 1).last() == current);
                done = done + 1;
            }
        }
        assert(all.take(done) == all);
        r
    }
}

/// The values of `strings` as character sequences.
pub open spec fn texts(strings: Seq<String>) -> Seq<Seq<char>> {
    strings.map_values(|s: String| s@)
}

/// `t` carries the data of `rel`.
pub open spec fn carries(t: Tag, rel: TagRelation) -> bool {
    &&& t.id == rel.id
    &&& t.name == rel.name
    &&& t.kana == rel.kana
    &&& t.aliases.set() == texts(rel.aliases@).to_set()
    &&& t.created_at == rel.created_at
    &&& t.updated_at == rel.updated_at
}

/// `t` is node `n` of `m` expanded `p` levels up its parent chain and `c`
/// levels down its children, where a parent is followed only while
/// `alive` holds for it.
pub open spec fn extracted(t: Tag, m: RelationsModel, alive: Seq<bool>, n: int, p: nat, c: nat) -> bool
    decreases p + c,
{
    &&& 0 <= n < m.relations.len()
    &&& carries(t, m.relations[n])
    &&& if p > 0 && m.parents[n] is Some && 0 <= m.parents[n]->0 < alive.len() && alive[
        m.parents[n]->0 as int] {
        &&& t.parent is Some
        &&& extracted(*t.parent->0, m, alive, m.parents[n]->0 as int, (p - 1) as nat, 0)
    } else {
        t.parent is None
    }
    &&& if c > 0 {
        &&& t.children@.len() == m.children[n].len()
        &&& forall|k: int|
            0 <= k < t.children@.len() ==> extracted(
                #[trigger] t.children@[k],
                m,
                alive,
                m.children[n][k] as int,
                0,
                (c - 1) as nat,
            )
    } else {
        t.children@.len() == 0
    }
}

pub proof fn lemma_extracted_ignores_entries(
    t: Tag,
    m1: RelationsModel,
    m2: RelationsModel,
    alive: Seq<bool>,
    n: int,
    p: nat,
    c: nat,
)
    requires
        m1.relations == m2.relations,
        m1.parents == m2.parents,
        m1.children == m2.children,
        extracted(t, m1, alive, n, p, c),
    ensures
        extracted(t, m2, alive, n, p, c),
    decreases p + c,
{
    if p > 0 && m1.parents[n] is Some && 0 <= m1.parents[n]->0 < alive.len() && alive[m1.parents[n]->0 as int] {
        lemma_extracted_ignores_entries(*t.parent->0, m1, m2, alive, m1.parents[n]->0 as int, (p - 1) as nat, 0);
    }
    if c > 0 {
        assert forall|k: int| 0 <= k < t.children@.len() implies extracted(
            #[trigger] t.children@[k],
            m2,
            alive,
            m2.children[n][k] as int,
            0,
            (c - 1) as nat,
        ) by {
            lemma_extracted_ignores_entries(t.children@[k], m1, m2, alive, m1.children[n][k] as int, 0, (c - 1) as nat);
        }
    }
}

/// A copy of a list of strings.
fn clone_strings(v: &Vec<String>) -> (r: Vec<String>)
    ensures
        r@ == v@,
{
    let mut r: Vec<String> = Vec::new();
    let mut i: usize = 0;
    while i < v.len()
        invariant
            i <= v@.len(),
            r@ == v@.take(i as int),
        decreases v@.len() - i,
    {
        let s = v[i].clone();
        r.push(s);
        assert(r@ =~= v@.take(i + 1));
        i = i + 1;
    }
    assert(v@.take(v@.len() as int) =~= v@);
    r
}

impl TagRelations {
    /// Builds the tag of node `n`, expanded by `depth`.
    pub fn extract(&self, alive: &Vec<bool>, n: usize, depth: TagDepth) -> (t: Tag)
        requires
            relations_wf(self.model()),
            n < self.relations@.len(),
        ensures
            extracted(t, self.model(), alive@, n as int, depth.parent_spec() as nat, depth.children_spec() as nat),
        decreases depth.parent_spec() + depth.children_spec(),
    {
        let rel = &self.relations[n];
        let aliases = AliasSet::new(clone_strings(&rel.aliases));
        let mut parent: Option<Box<Tag>> = None;
        if depth.has_parent() {
            match self.parents[n] {
                Some(p) => {
                    if p < alive.len() && alive[p] {
                        let up = self.extract(alive, p, TagDepth::new(depth.parent() - 1, 0));
                        parent = Some(Box::new(up));
                    }
                },
                None => {},
            }
        }
        let mut children: Vec<Tag> = Vec::new();
        if depth.has_children() {
            let below = TagDepth::new(0, depth.children() - 1);
            let kids = &self.children[n];
            let mut k: usize = 0;
            while k < kids.len()
                invariant
                    relations_wf(self.model()),
                    n < self.relations@.len(),
                    *kids == self.children@[n as int],
                    depth.children_spec() > 0,
                    below.parent_spec() == 0,
                    below.children_spec() == depth.children_spec() - 1,
                    k <= kids@.len(),
                    children@.len() == k,
                    forall|j: int|
                        0 <= j < k ==> extracted(
                            #[trigger] children@[j],
                            self.model(),
                            alive@,
                            kids@[j] as int,
                            0,
                            below.children_spec() as nat,
                        ),
                decreases kids@.len() - k,
            {
                proof {
                    assert(self.model().children[n as int][k as int] == kids@[k as int]);
                }
                let child = self.extract(alive, kids[k], below);
                children.push(child);
                k = k + 1;
            }
        }
        let t = Tag {
            id: rel.id,
            name: rel.name.clone(),
            kana: rel.kana.clone(),
            aliases,
            parent,
            children,
            created_at: rel.created_at,
            updated_at: rel.updated_at,
        };
        proof {
            assert(self.model().children[n as int] == self.children@[n as int]@);
        }
        t
    }
}

/// Nodes that a node of `s` holds among its children.
pub open spec fn linked_from(children: Seq<Seq<usize>>, s: Set<int>) -> Set<int> {
    Set::new(
        |c: int|
            exists|j: int, k: int|
                #![trigger children[j][k], s.contains(j)]
                s.contains(j) && 0 <= j < children.len() && 0 <= k < children[j].len()
                    && children[j][k] as int == c,
    )
}

/// Nodes reachable from `roots` through at most `steps` child links.
pub open spec fn reach(children: Seq<Seq<usize>>, roots: Set<int>, steps: nat) -> Set<int>
    decreases steps,
{
    if steps == 0 {
        roots
    } else {
        let prev = reach(children, roots, (steps - 1) as nat);
        prev.union(linked_from(children, prev))
    }
}

/// Nodes that the map points at.
pub open spec fn entry_targets(e: Seq<(u128, usize)>) -> Set<int> {
    Set::new(|j: int| exists|i: int| 0 <= i < e.len() && #[trigger] e[i].1 as int == j)
}

/// Which nodes are still alive while the map holds the entries `e`: those
/// reachable from the map's nodes through child links (a child link keeps
/// its node alive, a parent link does not).
pub open spec fn alive_bits(m: RelationsModel, e: Seq<(u128, usize)>) -> Seq<bool> {
    let live = reach(m.children, entry_targets(e), m.relations.len() as nat);
    Seq::new(m.relations.len(), |i: int| live.contains(i))
}

/// Some node marked in `marks` below `limit` has `j` among its children.
pub open spec fn fed(children: Seq<Seq<usize>>, marks: Seq<bool>, limit: int, j: int) -> bool {
    exists|a: int, k: int|
        #![trigger children[a][k], marks[a]]
        0 <= a < limit && 0 <= k < children[a].len() && marks[a] && children[a][k] as int == j
}

impl TagRelations {
    /// One round of propagation: marks every child of a marked node.
    fn propagate(&self, marks: &Vec<bool>) -> (next: Vec<bool>)
        requires
            relations_wf(self.model()),
            marks@.len() == self.relations@.len(),
        ensures
            next@.len() == marks@.len(),
            forall|j: int|
                0 <= j < marks@.len() ==> #[trigger] next@[j] == (marks@[j] || fed(
                    self.model().children,
                    marks@,
                    marks@.len() as int,
                    j,
                )),
    {
        let ghost ch = self.model().children;
        let n = marks.len();
        let mut next: Vec<bool> = Vec::new();
        let mut i: usize = 0;
        while i < n
            invariant
                n == marks@.len(),
                i <= n,
                next@ == marks@.take(i as int),
            decreases n - i,
        {
            next.push(marks[i]);
            assert(next@ =~= marks@.take(i + 1));
            i = i + 1;
        }
        assert(marks@.take(n as int) =~= marks@);
        let mut a: usize = 0;
        while a < n
            invariant
                ch == self.model().children,
                relations_wf(self.model()),
                n == marks@.len(),
                n == self.relations@.len(),
                a <= n,
                next@.len() == n,
                forall|j: int| 0 <= j < n ==> #[trigger] next@[j] == (marks@[j] || fed(ch, marks@, a as int, j)),
            decreases n - a,
        {
            if marks[a] {
                let kids = &self.children[a];
                assert(kids@ == ch[a as int]);
                let mut k: usize = 0;
                while k < kids.len()
                    invariant
                        ch == self.model().children,
                        relations_wf(self.model()),
                        n == marks@.len(),
                        n == self.relations@.len(),
                        a < n,
                        marks@[a as int],
                        kids@ == ch[a as int],
                        k <= kids@.len(),
                        next@.len() == n,
                        forall|j: int|
                            0 <= j < n ==> #[trigger] next@[j] == (marks@[j] || fed(ch, marks@, a as int, j)
                                || exists|q: int| 0 <= q < k && kids@[q] as int == j),
                    decreases kids@.len() - k,
                {
                    let c = kids[k];
                    assert(c < n);
                    next.set(c, true);
                    assert forall|j: int| 0 <= j < n implies #[trigger] next@[j] == (marks@[j] || fed(
                        ch,
                        marks@,
                        a as int,
                        j,
                    ) || exists|q: int| 0 <= q < k + 1 && kids@[q] as int == j) by {
                        if j == c as int {
                            assert(kids@[k as int] as int == j);
                        }
                    }
                    k = k + 1;
                }
                assert forall|j: int| 0 <= j < n implies #[trigger] next@[j] == (marks@[j] || fed(
                    ch,
                    marks@,
                    a + 1,
                    j,
                )) by {
                    if exists|q: int| 0 <= q < kids@.len() && kids@[q] as int == j {
                        let q = choose|q: int| 0 <= q < kids@.len() && kids@[q] as int == j;
                        assert(ch[a as int][q] as int == j && marks@[a as int]);
                    }
                    if fed(ch, marks@, a + 1, j) && !fed(ch, marks@, a as int, j) {
                        let (x, y) = choose|x: int, y: int|
                            #![trigger ch[x][y], marks@[x]]
                            0 <= x < a + 1 && 0 <= y < ch[x].len() && marks@[x] && ch[x][y] as int == j;
                        assert(x == a);
                        assert(kids@[y] as int == j);
                    }
                }
            } else {
                assert forall|j: int| 0 <= j < n implies #[trigger] next@[j] == (marks@[j] || fed(
                    ch,
                    marks@,
                    a + 1,
                    j,
                )) by {
                    if fed(ch, marks@, a + 1, j) && !fed(ch, marks@, a as int, j) {
                        let (x, y) = choose|x: int, y: int|
                            #![trigger ch[x][y], marks@[x]]
                            0 <= x < a + 1 && 0 <= y < ch[x].len() && marks@[x] && ch[x][y] as int == j;
                        assert(x == a);
                    }
                }
            }
            a = a + 1;
        }
        next
    }

    /// Which nodes are alive while `self.index` holds its entries.
    pub fn alive_nodes(&self) -> (alive: Vec<bool>)
        requires
            relations_wf(self.model()),
        ensures
            alive@ == alive_bits(self.model(), self.model().entries),
    {
        let ghost m = self.model();
        let ghost e = m.entries;
        let n = self.relations.len();
        let mut marks: Vec<bool> = Vec::new();
        let mut i: usize = 0;
        while i < n
            invariant
                i <= n,
                marks@.len() == i,
                forall|j: int| 0 <= j < i ==> !#[trigger] marks@[j],
            decreases n - i,
        {
            marks.push(false);
            i = i + 1;
        }
        let len = index_map_len(&self.index);
        let mut i: usize = 0;
        while i < len
            invariant
                m == self.model(),
                e == m.entries,
                relations_wf(m),
                n == m.relations.len(),
                len == e.len(),
                i <= len,
                marks@.len() == n,
                forall|j: int|
                    0 <= j < n ==> #[trigger] marks@[j] == exists|q: int| 0 <= q < i && e[q].1 as int == j,
            decreases len - i,
        {
            let entry = index_map_get_index(&self.index, i);
            match entry {
                Some((_, v)) => {
                    assert(e[i as int].1 < n);
                    marks.set(v, true);
                    assert forall|j: int| 0 <= j < n implies #[trigger] marks@[j] == exists|q: int|
                        0 <= q < i + 1 && e[q].1 as int == j by {
                        if j == v as int {
                            assert(e[i as int].1 as int == j);
                        }
                    }
                },
                None => {},
            }
            i = i + 1;
        }
        assert forall|j: int| 0 <= j < n implies #[trigger] marks@[j] == reach(
            m.children,
            entry_targets(e),
            0,
        ).contains(j) by {}
        let mut round: usize = 0;
        while round < n
            invariant
                m == self.model(),
                e == m.entries,
                relations_wf(m),
                n == m.relations.len(),
                round <= n,
                marks@.len() == n,
                forall|j: int|
                    0 <= j < n ==> #[trigger] marks@[j] == reach(m.children, entry_targets(e), round as nat).contains(j),
            decreases n - round,
        {
            let next = self.propagate(&marks);
            proof {
                let prev = reach(m.children, entry_targets(e), round as nat);
                assert forall|j: int| 0 <= j < n implies #[trigger] next@[j] == reach(
                    m.children,
                    entry_targets(e),
                    (round + 1) as nat,
                ).contains(j) by {
                    if fed(m.children, marks@, n as int, j) {
                        let (x, y) = choose|x: int, y: int|
                            #![trigger m.children[x][y], marks@[x]]
                            0 <= x < n && 0 <= y < m.children[x].len() && marks@[x] && m.children[x][y] as int == j;
                        assert(prev.contains(x));
                        assert(linked_from(m.children, prev).contains(j));
                    }
                    if linked_from(m.children, prev).contains(j) {
                        let (x, y) = choose|x: int, y: int|
                            #![trigger m.children[x][y], prev.contains(x)]
                            prev.contains(x) && 0 <= x < m.children.len() && 0 <= y < m.children[x].len()
                                && m.children[x][y] as int == j;
                        assert(marks@[x]);
                        assert(fed(m.children, marks@, n as int, j));
                    }
                }
            }
            marks = next;
            round = round + 1;
        }
        assert(marks@ =~= alive_bits(m, e));
        marks
    }
}

/// The values of a list of tag ids.
pub open spec fn id_values(ids: Seq<TagId>) -> Set<u128> {
    ids.map_values(|t: TagId| t.0).to_set()
}

/// The map entries whose tags were asked for.
pub open spec fn requested_entries(m: RelationsModel, e: Seq<(u128, usize)>, ids: Set<u128>) -> Seq<(u128, usize)> {
    e.filter(|x: (u128, usize)| ids.contains(m.relations[x.1 as int].id.0))
}

/// The result of the relatives query for the tags `ids`, read from `rows`,
/// expanded by `depth`.
///
/// With `root`, these are the children of the root tag (in the order of the
/// rows), expanded below only; nothing when the root tag is absent or no
/// children level was asked for.
///
/// Without `root`, the root tag is first taken out of the map (the last tag
/// of the map moves into its place) and dropped, so that parent links to it
/// end; then every remaining tag whose id was asked for is expanded, in the
/// map's order.
pub open spec fn relatives_result(
    tags: Seq<Tag>,
    rows: Seq<TagRelativeRow>,
    ids: Seq<TagId>,
    depth: TagDepth,
    root: bool,
) -> bool {
    let m = relations_of(rows);
    let p = depth.parent_spec() as nat;
    let c = depth.children_spec() as nat;
    if root {
        match key_position(m.entries, 0) {
            None => tags.len() == 0,
            Some(i) => {
                let n = m.entries[i].1 as int;
                if c == 0 {
                    tags.len() == 0
                } else {
                    &&& tags.len() == m.children[n].len()
                    &&& forall|k: int|
                        0 <= k < tags.len() ==> extracted(
                            #[trigger] tags[k],
                            m,
                            Seq::empty(),
                            m.children[n][k] as int,
                            0,
                            (c - 1) as nat,
                        )
                }
            },
        }
    } else {
        let e = entries_after_swap_remove(m.entries, 0);
        let sel = requested_entries(m, e, id_values(ids));
        &&& tags.len() == sel.len()
        &&& forall|k: int|
            0 <= k < tags.len() ==> extracted(
                #[trigger] tags[k],
                m,
                alive_bits(m, e),
                sel[k].1 as int,
                p,
                c,
            )
    }
}

/// Assembles the tags that the relatives query returned in `rows`.
pub fn assemble_tag_relatives(rows: Vec<TagRelativeRow>, ids: &Vec<TagId>, depth: TagDepth, root: bool) -> (tags: Vec<Tag>)
    ensures
        relatives_result(tags@, rows@, ids@, depth, root),
{
    broadcast use vstd::std_specs::hash::group_hash_axioms;

    let ghost all = rows@;
    let mut relations = TagRelations::from_rows(rows);
    let ghost m = relations.model();
    let root_node = index_map_swap_remove(&mut relations.index, 0);
    proof {
        lemma_key_position(m.entries, 0);
    }
    let mut tags: Vec<Tag> = Vec::new();
    if root {
        match root_node {
            None => {},
            Some(n) => {
                if depth.has_children() {
                    let below = TagDepth::new(0, depth.children() - 1);
                    let none: Vec<bool> = Vec::new();
                    let kids = &relations.children[n];
                    assert(kids@ == m.children[n as int]);
                    let mut k: usize = 0;
                    while k < kids.len()
                        invariant
                            relations_wf(relations.model()),
                            relations.model().relations == m.relations,
                            relations.model().parents == m.parents,
                            relations.model().children == m.children,
                            none@ == Seq::<bool>::empty(),
                            n < m.relations.len(),
                            kids@ == m.children[n as int],
                            below.parent_spec() == 0,
                            below.children_spec() == depth.children_spec() - 1,
                            k <= kids@.len(),
                            tags@.len() == k,
                            forall|j: int|
                                0 <= j < k ==> extracted(
                                    #[trigger] tags@[j],
                                    m,
                                    Seq::empty(),
                                    kids@[j] as int,
                                    0,
                                    below.children_spec() as nat,
                                ),
                        decreases kids@.len() - k,
                    {
                        let t = relations.extract(&none, kids[k], below);
                        proof {
                            lemma_extracted_ignores_entries(t, relations.model(), m, none@, kids@[k as int] as int, 0, below.children_spec() as nat);
                        }
                        tags.push(t);
                        k = k + 1;
                    }
                }
            },
        }
        return tags;
    }
    let ghost e = index_map_entries(relations.index);
    proof {
        assert(e == entries_after_swap_remove(m.entries, 0));
        assert forall|i: int| 0 <= i < e.len() implies (#[trigger] e[i]).1 < m.relations.len() by {
            match key_position(m.entries, 0) {
                Some(q) => {
                    if q == m.entries.len() - 1 {
                        assert(e[i] == m.entries[i]);
                    } else if i == q {
                        assert(e[i] == m.entries[m.entries.len() - 1]);
                    } else {
                        assert(e[i] == m.entries[i]);
                    }
                },
                None => {},
            }
        }
        assert(relations_wf(relations.model()));
    }
    let alive = relations.alive_nodes();
    assert(alive@ == alive_bits(m, e));
    let mut wanted: HashSet<u128> = HashSet::new();
    let mut i: usize = 0;
    while i < ids.len()
        invariant
            i <= ids@.len(),
            wanted@ == ids@.take(i as int).map_values(|t: TagId| t.0).to_set(),
        decreases ids@.len() - i,
    {
        wanted.insert(ids[i].0);
        proof {
            let prev = ids@.take(i as int).map_values(|t: TagId| t.0);
            assert(ids@.take(i + 1).map_values(|t: TagId| t.0) =~= prev.push(ids@[i as int].0));
            crate::text::lemma_push_to_set(prev, ids@[i as int].0);
        }
        i = i + 1;
    }
    assert(ids@.take(ids@.len() as int) =~= ids@);
    let ghost want = id_values(ids@);
    let ghost pred = |x: (u128, usize)| want.contains(m.relations[x.1 as int].id.0);
    let len = index_map_len(&relations.index);
    let mut i: usize = 0;
    assert(e.take(0).filter(pred) =~= Seq::<(u128, usize)>::empty()) by {
        reveal(Seq::filter);
    }
    while i < len
        invariant
            relations_wf(relations.model()),
            relations.model().relations == m.relations,
            relations.model().parents == m.parents,
            relations.model().children == m.children,
            e == index_map_entries(relations.index),
            len == e.len(),
            alive@ == alive_bits(m, e),
            wanted@ == want,
            pred == (|x: (u128, usize)| want.contains(m.relations[x.1 as int].id.0)),
            i <= len,
            tags@.len() == e.take(i as int).filter(pred).len(),
            forall|k: int|
                0 <= k < tags@.len() ==> extracted(
                    #[trigger] tags@[k],
                    m,
                    alive_bits(m, e),
                    e.take(i as int).filter(pred)[k].1 as int,
                    depth.parent_spec() as nat,
                    depth.children_spec() as nat,
                ),
        decreases len - i,
    {
        let entry = index_map_get_index(&relations.index, i);
        proof {
            assert(e.take(i + 1) =~= e.take(i as int).push(e[i as int]));
            e.take(i as int).lemma_filter_push(e[i as int], pred);
        }
        match entry {
            Some((_, v)) => {
                assert(relations.model().entries == e);
                assert(relations.model().entries[i as int].1 < relations.model().relations.len());
                let t = relations.extract(&alive, v, depth);
                proof {
                    lemma_extracted_ignores_entries(t, relations.model(), m, alive@, v as int, depth.parent_spec() as nat, depth.children_spec() as nat);
                }
                if wanted.contains(&t.id.0) {
                    tags.push(t);
                }
            },
            None => {},
        }
        i = i + 1;
    }
    assert(e.take(len as int) =~= e);
    tags
}

/// The first position of `id` in `ids`, if any.
pub open spec fn first_position(ids: Seq<TagId>, id: TagId) -> Option<int> {
    if exists|k: int| 0 <= k < ids.len() && ids[k] == id {
        Some(
            choose|k: int|
                0 <= k < ids.len() && ids[k] == id && forall|j: int| 0 <= j < k ==> ids[j] != id,
        )
    } else {
        None
    }
}

/// Sort key of a tag in a listing: requested tags come by their position in
/// the request, any other tag after them by its id.
pub open spec fn request_rank(ids: Seq<TagId>, id: TagId) -> (int, int) {
    match first_position(ids, id) {
        Some(k) => (0, k),
        None => (1, id.0 as int),
    }
}

pub open spec fn rank_le(a: (int, int), b: (int, int)) -> bool {
    a.0 < b.0 || (a.0 == b.0 && a.1 <= b.1)
}

proof fn lemma_first_position(ids: Seq<TagId>, id: TagId)
    ensures
        first_position(ids, id) matches Some(k) ==> 0 <= k < ids.len() && ids[k] == id && forall|j: int|
            0 <= j < k ==> ids[j] != id,
        first_position(ids, id) is None ==> forall|j: int| 0 <= j < ids.len() ==> ids[j] != id,
{
    if exists|k: int| 0 <= k < ids.len() && ids[k] == id {
        let k0 = choose|k: int| 0 <= k < ids.len() && ids[k] == id;
        assert(exists|k: int|
            0 <= k < ids.len() && ids[k] == id && forall|j: int| 0 <= j < k ==> ids[j] != id) by {
            lemma_least_position(ids, id, k0);
        }
    }
}

proof fn lemma_least_position(ids: Seq<TagId>, id: TagId, k: int)
    requires
        0 <= k < ids.len(),
        ids[k] == id,
    ensures
        exists|m: int| 0 <= m < ids.len() && ids[m] == id && forall|j: int| 0 <= j < m ==> ids[j] != id,
    decreases k,
{
    if exists|j: int| 0 <= j < k && ids[j] == id {
        let j = choose|j: int| 0 <= j < k && ids[j] == id;
        lemma_least_position(ids, id, j);
    } else {
        assert(forall|j: int| 0 <= j < k ==> ids[j] != id);
    }
}

/// The rank of `id`, as computed.
fn rank_of(ids: &Vec<TagId>, id: TagId) -> (r: (u8, u128))
    ensures
        request_rank(ids@, id) == (r.0 as int, r.1 as int),
{
    let mut k: usize = 0;
    while k < ids.len()
        invariant
            k <= ids@.len(),
            forall|j: int| 0 <= j < k ==> ids@[j] != id,
        decreases ids@.len() - k,
    {
        if ids[k] == id {
            proof {
                lemma_first_position(ids@, id);
            }
            return (0, k as u128);
        }
        k = k + 1;
    }
    proof {
        lemma_first_position(ids@, id);
    }
    (1, id.0)
}

/// Puts the tags of a listing in the order of the request that selected
/// them; tags that were not requested follow, ordered by id.
pub fn sort_by_request_order(tags: Vec<Tag>, ids: &Vec<TagId>) -> (sorted: Vec<Tag>)
    ensures
        sorted@.to_multiset() == tags@.to_multiset(),
        forall|i: int, j: int|
            0 <= i < j < sorted@.len() ==> rank_le(
                request_rank(ids@, #[trigger] sorted@[i].id),
                request_rank(ids@, #[trigger] sorted@[j].id),
            ),
{
    broadcast use vstd::seq_lib::to_multiset_insert;

    let ghost input = tags@;
    let mut sorted: Vec<Tag> = Vec::new();
    let mut ranks: Vec<(u8, u128)> = Vec::new();
    let ghost mut done: int = 0;
    assert(input.take(0).to_multiset() =~= sorted@.to_multiset()) by {
        assert(input.take(0) =~= sorted@);
    }
    for t in it: tags
        invariant
            input == it.seq(),
            done == it.index(),
            sorted@.to_multiset() == input.take(done).to_multiset(),
            ranks@.len() == sorted@.len(),
            forall|i: int|
                0 <= i < ranks@.len() ==> request_rank(ids@, #[trigger] sorted@[i].id) == (
                ranks@[i].0 as int,
                ranks@[i].1 as int,
            ),
            forall|i: int, j: int|
                0 <= i < j < sorted@.len() ==> rank_le(
                    request_rank(ids@, #[trigger] sorted@[i].id),
                    request_rank(ids@, #[trigger] sorted@[j].id),
                ),
    {
        let ghost cur = t;
        let r = rank_of(ids, t.id);
        let mut p: usize = 0;
        while p < ranks.len() && (ranks[p].0 < r.0 || (ranks[p].0 == r.0 && ranks[p].1 <= r.1))
            invariant
                p <= ranks@.len(),
                forall|i: int| 0 <= i < p ==> rank_le(
                    (ranks@[i].0 as int, ranks@[i].1 as int),
                    (r.0 as int, r.1 as int),
                ),
            decreases ranks@.len() - p,
        {
            p = p + 1;
        }
        let ghost old_sorted = sorted@;
        let ghost old_ranks = ranks@;
        sorted.insert(p, t);
        ranks.insert(p, r);
        proof {
            assert(sorted@ == old_sorted.insert(p as int, cur));
            assert forall|i: int| 0 <= i < ranks@.len() implies request_rank(
                ids@,
                #[trigger] sorted@[i].id,
            ) == (ranks@[i].0 as int, ranks@[i].1 as int) by {
                if i > p {
                    assert(sorted@[i] == old_sorted[i - 1]);
                    assert(ranks@[i] == old_ranks[i - 1]);
                }
            }
            assert forall|i: int, j: int| 0 <= i < j < sorted@.len() implies rank_le(
                request_rank(ids@, #[trigger] sorted@[i].id),
                request_rank(ids@, #[trigger] sorted@[j].id),
            ) by {
                let ri = (ranks@[i].0 as int, ranks@[i].1 as int);
                let rj = (ranks@[j].0 as int, ranks@[j].1 as int);
                assert(request_rank(ids@, sorted@[i].id) == ri);
                assert(request_rank(ids@, sorted@[j].id) == rj);
                if i < p && j > p {
                    assert(old_sorted[i] == sorted@[i]);
                    assert(old_sorted[j - 1] == sorted@[j]);
                    assert(rank_le(
                        request_rank(ids@, old_sorted[i].id),
                        request_rank(ids@, old_sorted[j - 1].id),
                    ));
                } else if i > p {
                    assert(old_sorted[i - 1] == sorted@[i]);
                    assert(old_sorted[j - 1] == sorted@[j]);
                    assert(rank_le(
                        request_rank(ids@, old_sorted[i - 1].id),
                        request_rank(ids@, old_sorted[j - 1].id),
                    ));
                } else if j < p {
                    assert(old_sorted[i] == sorted@[i]);
                    assert(old_sorted[j] == sorted@[j]);
                    assert(rank_le(
                        request_rank(ids@, old_sorted[i].id),
                        request_rank(ids@, old_sorted[j].id),
                    ));
                } else if i == p {
                    if p < old_ranks.len() {
                        assert(ranks@[p as int + 1] == old_ranks[p as int]);
                        assert(old_sorted[j - 1] == sorted@[j]);
                        if j > p + 1 {
                            assert(old_sorted[p as int] == sorted@[p + 1]);
                            assert(rank_le(
                                request_rank(ids@, old_sorted[p as int].id),
                                request_rank(ids@, old_sorted[j - 1].id),
                            ));
                        }
                    }
                } else {
                    assert(j == p);
                    assert(old_sorted[i] == sorted@[i]);
                }
            }
            assert(input.take(done + 1) =~= input.take(done).push(cur));
            assert(p <= old_sorted.len());
            vstd::seq_lib::to_multiset_insert(old_sorted, p as int, cur);
            vstd::seq_lib::to_multiset_build(input.take(done), cur);
            done = done + 1;
        }
    }
    assert(input.take(done) =~= input);
    sorted
}

/// Depth of a root listing: the root tag itself is expanded one level up
/// and one level further down, so that its children carry `depth`'s
/// children levels.
pub fn root_listing_depth(depth: TagDepth, root: bool) -> (d: TagDepth)
    requires
        root ==> depth.children_spec() < u32::MAX,
    ensures
        root ==> d.parent_spec() == 1 && d.children_spec() == depth.children_spec() + 1,
        !root ==> d == depth,
{
    if root {
        TagDepth::new(1, depth.children() + 1)
    } else {
        depth
    }
}

/// Requests that the tags repository refuses.
#[derive(Clone, Copy, Debug, PartialEq, Eq, Structural)]
pub enum PostgresTagError {
    RootUpdated,
    RootAttached,
    RootDetached,
    RootDeleted,
    ChildrenExist(usize),
}

/// Refuses an operation on the root tag with `error`.
pub fn reject_root(id: TagId, error: PostgresTagError) -> (r: Result<(), PostgresTagError>)
    ensures
        id.0 == 0 ==> r == Err::<(), PostgresTagError>(error),
        id.0 != 0 ==> r is Ok,
{
    if id.is_root() {
        Err(error)
    } else {
        Ok(())
    }
}

/// Whether a tag whose subtree holds `subtree_len` tags (itself included)
/// may be deleted: without `recursive` it must have no descendants.
pub fn check_deletable(subtree_len: usize, recursive: bool) -> (r: Result<(), PostgresTagError>)
    ensures
        !recursive && subtree_len > 1 ==> r == Err::<(), PostgresTagError>(
            PostgresTagError::ChildrenExist((subtree_len - 1) as usize),
        ),
        recursive || subtree_len <= 1 ==> r is Ok,
{
    if !recursive && subtree_len > 1 {
        Err(PostgresTagError::ChildrenExist(subtree_len - 1))
    } else {
        Ok(())
    }
}

/// `s` with the characters of LIKE patterns escaped: a backslash doubled,
/// `%` and `_` preceded by a backslash.
pub open spec fn like_escaped(s: Seq<char>) -> Seq<char> {
    replaced(replaced(replaced(s, '\\', seq!['\\', '\\']), '%', seq!['\\', '%']), '_', seq!['\\', '_'])
}

/// The LIKE pattern `%`, `s` escaped, `%`: a search for texts containing `s`.
pub open spec fn like_pattern_of(s: Seq<char>) -> Seq<char> {
    seq!['%'] + like_escaped(s) + seq!['%']
}

/// The LIKE pattern that matches names and aliases containing `text`.
pub fn like_pattern(text: &str) -> (p: String)
    ensures
        p@ == like_pattern_of(text@),
{
    let a = str_replace_char(text, '\\', "\\\\");
    let b = str_replace_char(a.as_str(), '%', "\\%");
    let c = str_replace_char(b.as_str(), '_', "\\_");
    proof {
        reveal_strlit("\\\\");
        reveal_strlit("\\%");
        reveal_strlit("\\_");
        assert("\\\\"@ =~= seq!['\\', '\\']);
        assert("\\%"@ =~= seq!['\\', '%']);
        assert("\\_"@ =~= seq!['\\', '_']);
    }
    let mut p = String::new();
    string_push(&mut p, '%');
    string_append(&mut p, c.as_str());
    string_push(&mut p, '%');
    assert(p@ =~= like_pattern_of(text@));
    p
}

/// How one character is written in a LIKE pattern to stand for itself.
pub open spec fn like_escape_char(c: char) -> Seq<char> {
    if c == '\\' || c == '%' || c == '_' {
        seq!['\\', c]
    } else {
        seq![c]
    }
}

/// The text that a LIKE pattern matches literally, read with the backslash
/// as escape character: `None` when the pattern holds a wildcard (`%` or `_`
/// not escaped) or ends in a lone backslash.
pub open spec fn like_literal(p: Seq<char>) -> Option<Seq<char>>
    decreases p.len(),
{
    if p.len() == 0 {
        Some(Seq::empty())
    } else if p[0] == '\\' {
        if p.len() < 2 {
            None
        } else {
            match like_literal(p.skip(2)) {
                Some(rest) => Some(seq![p[1]] + rest),
                None => None,
            }
        }
    } else if p[0] == '%' || p[0] == '_' {
        None
    } else {
        match like_literal(p.skip(1)) {
            Some(rest) => Some(seq![p[0]] + rest),
            None => None,
        }
    }
}

proof fn lemma_replaced_append(a: Seq<char>, b: Seq<char>, from: char, to: Seq<char>)
    ensures
        replaced(a + b, from, to) == replaced(a, from, to) + replaced(b, from, to),
    decreases b.len(),
{
    if b.len() == 0 {
        assert(a + b =~= a);
        assert(replaced(a, from, to) + replaced(b, from, to) =~= replaced(a, from, to));
    } else {
        assert((a + b).drop_last() =~= a + b.drop_last());
        assert((a + b).last() == b.last());
        lemma_replaced_append(a, b.drop_last(), from, to);
        let tail = if b.last() == from {
            to
        } else {
            seq![b.last()]
        };
        assert(replaced(a + b, from, to) == replaced(a + b.drop_last(), from, to) + tail);
        assert(replaced(b, from, to) == replaced(b.drop_last(), from, to) + tail);
        assert(replaced(a, from, to) + replaced(b.drop_last(), from, to) + tail
            =~= replaced(a, from, to) + (replaced(b.drop_last(), from, to) + tail));
    }
}

proof fn lemma_replaced_single(c: char, from: char, to: Seq<char>)
    ensures
        replaced(seq![c], from, to) == if c == from {
            to
        } else {
            seq![c]
        },
{
    assert(seq![c].drop_last() =~= Seq::<char>::empty());
    assert(seq![c].last() == c);
    assert(replaced(Seq::<char>::empty(), from, to) + to =~= to);
    assert(replaced(Seq::<char>::empty(), from, to) + seq![c] =~= seq![c]);
}

proof fn lemma_replaced_pair(c: char, d: char, from: char, to: Seq<char>)
    requires
        c != from,
        d != from,
    ensures
        replaced(seq![c, d], from, to) == seq![c, d],
{
    assert(seq![c, d] =~= seq![c] + seq![d]);
    lemma_replaced_append(seq![c], seq![d], from, to);
    lemma_replaced_single(c, from, to);
    lemma_replaced_single(d, from, to);
}

proof fn lemma_like_escaped_char(c: char)
    ensures
        like_escaped(seq![c]) == like_escape_char(c),
{
    lemma_replaced_single(c, '\\', seq!['\\', '\\']);
    if c == '\\' {
        lemma_replaced_pair('\\', '\\', '%', seq!['\\', '%']);
        lemma_replaced_pair('\\', '\\', '_', seq!['\\', '_']);
    } else {
        lemma_replaced_single(c, '%', seq!['\\', '%']);
        if c == '%' {
            lemma_replaced_pair('\\', '%', '_', seq!['\\', '_']);
        } else {
            lemma_replaced_single(c, '_', seq!['\\', '_']);
        }
    }
}

proof fn lemma_like_escaped_cons(c: char, rest: Seq<char>)
    ensures
        like_escaped(seq![c] + rest) == like_escape_char(c) + like_escaped(rest),
{
    let b = seq!['\\', '\\'];
    let pc = seq!['\\', '%'];
    let u = seq!['\\', '_'];
    lemma_replaced_append(seq![c], rest, '\\', b);
    let r1a = replaced(seq![c], '\\', b);
    let r1b = replaced(rest, '\\', b);
    lemma_replaced_append(r1a, r1b, '%', pc);
    let r2a = replaced(r1a, '%', pc);
    let r2b = replaced(r1b, '%', pc);
    lemma_replaced_append(r2a, r2b, '_', u);
    lemma_like_escaped_char(c);
    assert(like_escaped(seq![c]) == replaced(r2a, '_', u));
}

/// An escaped text, read back as a LIKE pattern, stands for exactly that
/// text: no character of it acts as a wildcard.
pub proof fn lemma_like_escaped_is_literal(s: Seq<char>)
    ensures
        like_literal(like_escaped(s)) == Some(s),
    decreases s.len(),
{
    if s.len() == 0 {
        assert(like_escaped(s) =~= Seq::<char>::empty());
    } else {
        let c = s[0];
        let rest = s.skip(1);
        assert(s =~= seq![c] + rest);
        lemma_like_escaped_cons(c, rest);
        lemma_like_escaped_is_literal(rest);
        let p = like_escaped(s);
        assert(p == like_escape_char(c) + like_escaped(rest));
        if c == '\\' || c == '%' || c == '_' {
            assert(p.skip(2) =~= like_escaped(rest));
            assert(p[0] == '\\' && p[1] == c);
        } else {
            assert(p.skip(1) =~= like_escaped(rest));
            assert(p[0] == c);
        }
        assert(seq![c] + rest =~= s);
    }
}

/// The search pattern is a `%` wildcard, then the searched text in a form
/// that LIKE reads literally, then a `%` wildcard.
pub proof fn lemma_like_pattern_shape(text: Seq<char>)
    ensures
        like_pattern_of(text).len() >= 2,
        like_pattern_of(text)[0] == '%',
        like_pattern_of(text).last() == '%',
        like_literal(like_pattern_of(text).subrange(1, like_pattern_of(text).len() - 1)) == Some(text),
{
    let p = like_pattern_of(text);
    assert(p.subrange(1, p.len() - 1) =~= like_escaped(text));
    lemma_like_escaped_is_literal(text);
}

/// A row of the `tags` table.
pub struct PostgresTagRow {
    pub id: u128,
    pub name: String,
    pub kana: String,
    pub aliases: Vec<String>,
    pub created_at: NaiveDateTime,
    pub updated_at: NaiveDateTime,
}

impl PostgresTagRow {
    /// The tag that the row stores, without relatives.
    pub fn into_tag(self) -> (t: Tag)
        ensures
            t.id == TagId(self.id),
            t.name == self.name,
            t.kana == self.kana,
            t.aliases.set() == texts(self.aliases@).to_set(),
            t.parent is None,
            t.children@.len() == 0,
            t.created_at == self.created_at,
            t.updated_at == self.updated_at,
    {
        Tag {
            id: TagId(self.id),
            name: self.name,
            kana: self.kana,
            aliases: AliasSet::new(self.aliases),
            parent: None,
            children: Vec::new(),
            created_at: self.created_at,
            updated_at: self.updated_at,
        }
    }
}

/// Identifiers of the `tags` table and its columns.
#[derive(Clone, Copy, Debug, PartialEq, Eq, Structural)]
pub enum PostgresTag {
    Table,
    Id,
    Name,
    Kana,
    Aliases,
    CreatedAt,
    UpdatedAt,
}

impl PostgresTag {
    /// The SQL name of the identifier.
    pub fn name(&self) -> (n: &'static str)
        ensures
            n@ == (match *self {
                PostgresTag::Table => "tags"@,
                PostgresTag::Id => "id"@,
                PostgresTag::Name => "name"@,
                PostgresTag::Kana => "kana"@,
                PostgresTag::Aliases => "aliases"@,
                PostgresTag::CreatedAt => "created_at"@,
                PostgresTag::UpdatedAt => "updated_at"@,
            }),
    {
        match self {
            PostgresTag::Table => "tags",
            PostgresTag::Id => "id",
            PostgresTag::Name => "name",
            PostgresTag::Kana => "kana",
            PostgresTag::Aliases => "aliases",
            PostgresTag::CreatedAt => "created_at",
            PostgresTag::UpdatedAt => "updated_at",
        }
    }
}

/// Identifiers of the closure table `tag_paths` and its columns.
#[derive(Clone, Copy, Debug, PartialEq, Eq, Structural)]
pub enum PostgresTagPath {
    Table,
    AncestorId,
    DescendantId,
    Distance,
}

impl PostgresTagPath {
    /// The SQL name of the identifier.
    pub fn name(&self) -> (n: &'static str)
        ensures
            n@ == (match *self {
                PostgresTagPath::Table => "tag_paths"@,
                PostgresTagPath::AncestorId => "ancestor_id"@,
                PostgresTagPath::DescendantId => "descendant_id"@,
                PostgresTagPath::Distance => "distance"@,
            }),
    {
        match self {
            PostgresTagPath::Table => "tag_paths",
            PostgresTagPath::AncestorId => "ancestor_id",
            PostgresTagPath::DescendantId => "descendant_id",
            PostgresTagPath::Distance => "distance",
        }
    }
}

/// The stored values of a tag after an update: a new name or kana replaces
/// the current one, the added aliases join and then the removed aliases
/// leave.
pub struct TagUpdate {
    pub name: String,
    pub kana: String,
    pub aliases: AliasSet,
}

/// Applies an update to the current values of a tag.
pub fn merge_tag_update(
    current: PostgresTagRow,
    name: Option<String>,
    kana: Option<String>,
    add_aliases: Vec<String>,
    remove_aliases: Vec<String>,
) -> (u: TagUpdate)
    ensures
        u.name == (match name {
            Some(n) => n,
            None => current.name,
        }),
        u.kana == (match kana {
            Some(k) => k,
            None => current.kana,
        }),
        u.aliases.set() == texts(current.aliases@).to_set().union(texts(add_aliases@).to_set()).difference(
            texts(remove_aliases@).to_set(),
        ),
{
    let name = match name {
        Some(n) => n,
        None => current.name,
    };
    let kana = match kana {
        Some(k) => k,
        None => current.kana,
    };
    let mut aliases = AliasSet::new(current.aliases);
    aliases.add_all(add_aliases);
    aliases.remove_all(remove_aliases);
    TagUpdate { name, kana, aliases }
}

/// The parent of a new tag: the given one, else the root tag.
pub fn parent_or_root(parent_id: Option<TagId>) -> (p: TagId)
    ensures
        parent_id matches Some(id) ==> p == id,
        parent_id is None ==> p.0 == 0,
{
    match parent_id {
        Some(id) => id,
        None => TagId::root(),
    }
}

/// The tag that a lookup of one id returned: the last of the results, or
/// `NotFound` when there is none.
pub fn single_tag(mut relatives: Vec<Tag>, id: TagId) -> (r: Result<Tag, TagError>)
    ensures
        relatives@.len() == 0 ==> r == Err::<Tag, TagError>(TagError::NotFound(id)),
        relatives@.len() > 0 ==> r == Ok::<Tag, TagError>(relatives@.last()),
{
    match relatives.pop() {
        Some(t) => Ok(t),
        None => Err(TagError::NotFound(id)),
    }
}

/// Number of ancestors above `t`.
pub open spec fn ancestor_count(t: Tag) -> nat
    decreases t,
{
    match t.parent {
        Some(p) => 1 + ancestor_count(*p),
        None => 0,
    }
}

/// Every tag of the children tree of `t` lies at most `c` levels below it.
pub open spec fn children_within(t: Tag, c: nat) -> bool
    decreases t,
{
    if c == 0 {
        t.children@.len() == 0
    } else {
        forall|k: int| 0 <= k < t.children@.len() ==> children_within(#[trigger] t.children@[k], (c - 1) as nat)
    }
}

/// An expanded tag never reaches further than asked: at most `p` ancestors
/// above it and `c` levels of children below it, and its ancestors carry
/// no children.
pub proof fn lemma_expansion_within_depth(t: Tag, m: RelationsModel, alive: Seq<bool>, n: int, p: nat, c: nat)
    requires
        extracted(t, m, alive, n, p, c),
    ensures
        ancestor_count(t) <= p,
        children_within(t, c),
        t.parent matches Some(a) ==> a.children@.len() == 0,
    decreases p + c,
{
    if t.parent is Some {
        let a = *t.parent->0;
        let q = m.parents[n]->0 as int;
        lemma_expansion_within_depth(a, m, alive, q, (p - 1) as nat, 0);
    }
    if c > 0 {
        assert forall|k: int| 0 <= k < t.children@.len() implies children_within(
            #[trigger] t.children@[k],
            (c - 1) as nat,
        ) by {
            lemma_expansion_within_depth(t.children@[k], m, alive, m.children[n][k] as int, 0, (c - 1) as nat);
        }
    }
}

/// A lookup without `root` returns only tags that were asked for.
pub proof fn lemma_relatives_are_requested(
    tags: Seq<Tag>,
    rows: Seq<TagRelativeRow>,
    ids: Seq<TagId>,
    depth: TagDepth,
)
    requires
        relatives_result(tags, rows, ids, depth, false),
    ensures
        forall|k: int| 0 <= k < tags.len() ==> id_values(ids).contains(#[trigger] tags[k].id.0),
{
    let m = relations_of(rows);
    let e = entries_after_swap_remove(m.entries, 0);
    let want = id_values(ids);
    let pred = |x: (u128, usize)| want.contains(m.relations[x.1 as int].id.0);
    let sel = e.filter(pred);
    assert forall|k: int| 0 <= k < tags.len() implies id_values(ids).contains(#[trigger] tags[k].id.0) by {
        e.lemma_filter_pred(pred, k);
        assert(extracted(tags[k], m, alive_bits(m, e), sel[k].1 as int, depth.parent_spec() as nat, depth.children_spec() as nat));
    }
}

} // verus!
