use vstd::prelude::*;

use chrono::NaiveDateTime;

use crate::domain::entity::datetime::naive_date_time_min;
use crate::text::{lemma_text_lt_irreflexive, lemma_text_lt_total, lemma_text_lt_transitive, text_less, text_lt};

verus! {

/// How far the parent chain and the children tree of a tag are expanded.
#[derive(Clone, Copy, Debug, PartialEq, Eq, Structural)]
pub struct TagDepth {
    parent: u32,
    children: u32,
}

impl TagDepth {
    /// Number of ancestor levels to expand.
    pub closed spec fn parent_spec(self) -> u32 {
        self.parent
    }

    /// Number of descendant levels to expand.
    pub closed spec fn children_spec(self) -> u32 {
        self.children
    }

    pub fn new(parent: u32, children: u32) -> (depth: Self)
        ensures
            depth.parent_spec() == parent,
            depth.children_spec() == children,
    {
        TagDepth { parent, children }
    }

    pub fn parent(&self) -> (n: u32)
        ensures
            n == self.parent_spec(),
    {
        self.parent
    }

    pub fn children(&self) -> (n: u32)
        ensures
            n == self.children_spec(),
    {
        self.children
    }

    pub fn has_parent(&self) -> (b: bool)
        ensures
            b == (self.parent_spec() > 0),
    {
        self.parent > 0
    }

    pub fn has_children(&self) -> (b: bool)
        ensures
            b == (self.children_spec() > 0),
    {
        self.children > 0
    }
}

} // verus!

verus! {

/// Identifier of a tag: the 128-bit value of its UUID.
#[derive(Clone, Copy, Debug, Default, PartialEq, Eq, Hash, PartialOrd, Ord, Structural)]
pub struct TagId(pub u128);

impl TagId {
    /// The hidden root tag that every top-level tag hangs from.
    pub fn root() -> (id: Self)
        ensures
            id.0 == 0,
    {
        TagId(0)
    }

    pub fn is_root(&self) -> (b: bool)
        ensures
            b == (self.0 == 0),
    {
        self.0 == 0
    }
}

impl From<u128> for TagId {
    fn from(value: u128) -> (id: Self)
        ensures
            id.0 == value,
    {
        TagId(value)
    }
}

impl vstd::std_specs::convert::FromSpecImpl<u128> for TagId {
    open spec fn obeys_from_spec() -> bool {
        true
    }

    open spec fn from_spec(v: u128) -> Self {
        TagId(v)
    }
}

/// The strings of `v` are in strictly increasing order.
pub open spec fn strictly_sorted(v: Seq<Seq<char>>) -> bool {
    forall|i: int, j: int| 0 <= i < j < v.len() ==> text_lt(#[trigger] v[i], #[trigger] v[j])
}

proof fn lemma_insert_to_set(s: Seq<Seq<char>>, p: int, x: Seq<char>)
    requires
        0 <= p <= s.len(),
    ensures
        s.insert(p, x).to_set() == s.to_set().insert(x),
{
    let t = s.insert(p, x);
    assert forall|y: Seq<char>| #[trigger] t.contains(y) implies s.contains(y) || y == x by {
        let k = choose|k: int| 0 <= k < t.len() && t[k] == y;
        if k < p {
            assert(s[k] == y);
        } else if k > p {
            assert(s[k - 1] == y);
        }
    }
    assert forall|y: Seq<char>| #[trigger] s.contains(y) implies t.contains(y) by {
        let k = choose|k: int| 0 <= k < s.len() && s[k] == y;
        if k < p {
            assert(t[k] == y);
        } else {
            assert(t[k + 1] == y);
        }
    }
    assert(t[p] == x);
    assert(t.to_set() =~= s.to_set().insert(x));
}

proof fn lemma_remove_to_set(s: Seq<Seq<char>>, p: int)
    requires
        0 <= p < s.len(),
        forall|i: int, j: int| 0 <= i < j < s.len() ==> s[i] != s[j],
    ensures
        s.remove(p).to_set() == s.to_set().remove(s[p]),
{
    let t = s.remove(p);
    assert forall|y: Seq<char>| #[trigger] t.contains(y) implies s.contains(y) && y != s[p] by {
        let k = choose|k: int| 0 <= k < t.len() && t[k] == y;
        if k < p {
            assert(s[k] == y);
        } else {
            assert(s[k + 1] == y);
        }
    }
    assert forall|y: Seq<char>| #[trigger] s.contains(y) && y != s[p] implies t.contains(y) by {
        let k = choose|k: int| 0 <= k < s.len() && s[k] == y;
        if k < p {
            assert(t[k] == y);
        } else {
            assert(t[k - 1] == y);
        }
    }
    assert(t.to_set() =~= s.to_set().remove(s[p]));
}

/// A set of alternative names of a tag, kept in increasing order without
/// duplicates.
#[derive(Debug, PartialEq, Eq)]
pub struct AliasSet {
    aliases: Vec<String>,
}

impl AliasSet {
    /// The aliases in increasing order.
    pub closed spec fn seq(self) -> Seq<Seq<char>> {
        self.aliases@.map_values(|a: String| a@)
    }

    #[verifier::type_invariant]
    spec fn sorted(self) -> bool {
        strictly_sorted(self.seq())
    }

    /// The aliases as a set.
    pub open spec fn set(self) -> Set<Seq<char>> {
        self.seq().to_set()
    }

    /// The empty set of aliases.
    pub fn empty() -> (s: Self)
        ensures
            s.seq() == Seq::<Seq<char>>::empty(),
    {
        let s = AliasSet { aliases: Vec::new() };
        assert(s.seq() =~= Seq::<Seq<char>>::empty());
        s
    }

    /// Position at which `alias` is or would be in the ordered list: the
    /// first alias that is not less than it.
    fn position(&self, alias: &String) -> (p: usize)
        ensures
            p <= self.seq().len(),
            forall|i: int| 0 <= i < p ==> text_lt(#[trigger] self.seq()[i], alias@),
            p < self.seq().len() ==> !text_lt(self.seq()[p as int], alias@),
    {
        let mut p: usize = 0;
        while p < self.aliases.len() && text_less(self.aliases[p].as_str(), alias.as_str())
            invariant
                p <= self.aliases@.len(),
                forall|i: int| 0 <= i < p ==> text_lt(#[trigger] self.seq()[i], alias@),
            decreases self.aliases@.len() - p,
        {
            p = p + 1;
        }
        p
    }

    /// Adds one alias; nothing changes when it is already present.
    pub fn add(&mut self, alias: String)
        ensures
            final(self).set() == old(self).set().insert(alias@),
    {
        proof {
            use_type_invariant(&*self);
        }
        let p = self.position(&alias);
        let ghost old_seq = self.seq();
        if p < self.aliases.len() && self.aliases[p] == alias {
            assert(old_seq.to_set() =~= old_seq.to_set().insert(alias@)) by {
                assert(old_seq[p as int] == alias@);
            }
            return;
        }
        proof {
            if p < old_seq.len() {
                lemma_text_lt_total(old_seq[p as int], alias@);
            }
            assert forall|i: int, j: int|
                0 <= i < j < old_seq.len() + 1 implies text_lt(
                #[trigger] old_seq.insert(p as int, alias@)[i],
                #[trigger] old_seq.insert(p as int, alias@)[j],
            ) by {
                let t = old_seq.insert(p as int, alias@);
                if i < p && j == p {
                } else if i == p && j > p {
                    if j - 1 > p {
                        lemma_text_lt_transitive(alias@, old_seq[p as int], old_seq[j - 1]);
                    }
                } else if i < p && j > p {
                    lemma_text_lt_transitive(old_seq[i], alias@, old_seq[p as int]);
                    if j - 1 > p {
                        lemma_text_lt_transitive(old_seq[i], old_seq[p as int], old_seq[j - 1]);
                    }
                }
            }
        }
        let mut aliases = Vec::new();
        std::mem::swap(&mut aliases, &mut self.aliases);
        aliases.insert(p, alias);
        assert(aliases@.map_values(|a: String| a@) =~= old_seq.insert(p as int, alias@));
        self.aliases = aliases;
        proof {
            lemma_insert_to_set(old_seq, p as int, alias@);
        }
    }

    /// Removes one alias; nothing changes when it is absent.
    pub fn remove(&mut self, alias: &String)
        ensures
            final(self).set() == old(self).set().remove(alias@),
    {
        proof {
            use_type_invariant(&*self);
        }
        let p = self.position(alias);
        let ghost old_seq = self.seq();
        proof {
            assert forall|i: int, j: int| 0 <= i < j < old_seq.len() implies old_seq[i] != old_seq[j] by {
                assert(text_lt(old_seq[i], old_seq[j]));
                lemma_text_lt_irreflexive(old_seq[i]);
            }
        }
        if p < self.aliases.len() && self.aliases[p] == *alias {
            proof {
                lemma_remove_to_set(old_seq, p as int);
                assert forall|i: int, j: int|
                    0 <= i < j < old_seq.len() - 1 implies text_lt(
                    #[trigger] old_seq.remove(p as int)[i],
                    #[trigger] old_seq.remove(p as int)[j],
                ) by {
                    let a = if i < p { i } else { i + 1 };
                    let b = if j < p { j } else { j + 1 };
                    assert(old_seq.remove(p as int)[i] == old_seq[a]);
                    assert(old_seq.remove(p as int)[j] == old_seq[b]);
                }
            }
            let mut aliases = Vec::new();
            std::mem::swap(&mut aliases, &mut self.aliases);
            aliases.remove(p);
            assert(aliases@.map_values(|a: String| a@) =~= old_seq.remove(p as int));
            self.aliases = aliases;
        } else {
            proof {
                if p < old_seq.len() {
                    lemma_text_lt_total(old_seq[p as int], alias@);
                }
                assert forall|k: int| 0 <= k < old_seq.len() implies old_seq[k] != alias@ by {
                    if k < p {
                        lemma_text_lt_irreflexive(alias@);
                    } else if k == p {
                    } else {
                        lemma_text_lt_transitive(alias@, old_seq[p as int], old_seq[k]);
                        lemma_text_lt_irreflexive(alias@);
                    }
                }
                assert(old_seq.to_set() =~= old_seq.to_set().remove(alias@));
            }
        }
    }

    /// Adds every alias of `aliases`.
    pub fn add_all(&mut self, aliases: Vec<String>)
        ensures
            final(self).set() == old(self).set().union(aliases@.map_values(|a: String| a@).to_set()),
    {
        let ghost start = self.set();
        let ghost added = aliases@.map_values(|a: String| a@);
        let n = aliases.len();
        let mut i: usize = 0;
        assert(added.take(0).to_set() =~= Set::<Seq<char>>::empty());
        assert(start.union(Set::<Seq<char>>::empty()) =~= start);
        while i < n
            invariant
                n == aliases@.len(),
                added == aliases@.map_values(|a: String| a@),
                i <= n,
                self.set() == start.union(added.take(i as int).to_set()),
            decreases n - i,
        {
            let alias = aliases[i].clone();
            self.add(alias);
            proof {
                let prev = added.take(i as int);
                assert(added.take(i + 1) =~= prev.insert(prev.len() as int, added[i as int]));
                lemma_insert_to_set(prev, prev.len() as int, added[i as int]);
                assert(start.union(prev.to_set()).insert(added[i as int]) =~= start.union(
                    prev.to_set().insert(added[i as int]),
                ));
            }
            i = i + 1;
        }
        assert(added.take(n as int) == added);
    }

    /// Removes every alias of `aliases`.
    pub fn remove_all(&mut self, aliases: Vec<String>)
        ensures
            final(self).set() == old(self).set().difference(aliases@.map_values(|a: String| a@).to_set()),
    {
        let ghost start = self.set();
        let ghost removed = aliases@.map_values(|a: String| a@);
        let n = aliases.len();
        let mut i: usize = 0;
        assert(removed.take(0).to_set() =~= Set::<Seq<char>>::empty());
        assert(start.difference(Set::<Seq<char>>::empty()) =~= start);
        while i < n
            invariant
                n == aliases@.len(),
                removed == aliases@.map_values(|a: String| a@),
                i <= n,
                self.set() == start.difference(removed.take(i as int).to_set()),
            decreases n - i,
        {
            self.remove(&aliases[i]);
            proof {
                let prev = removed.take(i as int);
                assert(removed.take(i + 1) =~= prev.insert(prev.len() as int, removed[i as int]));
                lemma_insert_to_set(prev, prev.len() as int, removed[i as int]);
                assert(start.difference(prev.to_set()).remove(removed[i as int]) =~= start.difference(
                    prev.to_set().insert(removed[i as int]),
                ));
            }
            i = i + 1;
        }
        assert(removed.take(n as int) == removed);
    }

    /// The aliases, in increasing order.
    pub fn into_inner(self) -> (v: Vec<String>)
        ensures
            v@.map_values(|a: String| a@) == self.seq(),
            strictly_sorted(v@.map_values(|a: String| a@)),
    {
        proof {
            use_type_invariant(&self);
        }
        self.aliases
    }

    /// The set of the given aliases.
    pub fn new(aliases: Vec<String>) -> (s: Self)
        ensures
            s.set() == aliases@.map_values(|a: String| a@).to_set(),
    {
        let mut s = Self::empty();
        assert(s.set() =~= Set::<Seq<char>>::empty());
        s.add_all(aliases);
        assert(Set::<Seq<char>>::empty().union(aliases@.map_values(|a: String| a@).to_set())
            =~= aliases@.map_values(|a: String| a@).to_set());
        s
    }
}

impl Clone for AliasSet {
    fn clone(&self) -> (c: Self)
        ensures
            c.seq() == self.seq(),
    {
        proof {
            use_type_invariant(self);
        }
        let n = self.aliases.len();
        let mut aliases: Vec<String> = Vec::new();
        let mut i: usize = 0;
        while i < n
            invariant
                n == self.aliases@.len(),
                i <= n,
                aliases@.map_values(|a: String| a@) == self.seq().take(i as int),
            decreases n - i,
        {
            let a = self.aliases[i].clone();
            assert(a@ == self.seq()[i as int]);
            let ghost prev = aliases@;
            aliases.push(a);
            assert(aliases@ == prev.push(a));
            assert(aliases@.map_values(|a: String| a@) =~= prev.map_values(|a: String| a@).push(a@));
            assert(self.seq().take(i + 1) =~= self.seq().take(i as int).push(self.seq()[i as int]));
            i = i + 1;
        }
        assert(self.seq().take(n as int) == self.seq());
        AliasSet { aliases }
    }
}

impl Default for AliasSet {
    fn default() -> (s: Self)
        ensures
            s.seq() == Seq::<Seq<char>>::empty(),
    {
        Self::empty()
    }
}

impl From<Vec<String>> for AliasSet {
    fn from(aliases: Vec<String>) -> (s: Self)
        ensures
            s.set() == aliases@.map_values(|a: String| a@).to_set(),
    {
        Self::new(aliases)
    }
}

impl vstd::std_specs::convert::FromSpecImpl<Vec<String>> for AliasSet {
    open spec fn obeys_from_spec() -> bool {
        false
    }

    open spec fn from_spec(v: Vec<String>) -> Self {
        arbitrary()
    }
}

} // verus!

verus! {

/// A tag with its place in the hierarchy: the ancestors above it and the
/// descendants below it, as far as they were requested.
#[derive(Debug, PartialEq, Eq)]
pub struct Tag {
    pub id: TagId,
    pub name: String,
    pub kana: String,
    pub aliases: AliasSet,
    pub parent: Option<Box<Tag>>,
    pub children: Vec<Tag>,
    pub created_at: NaiveDateTime,
    pub updated_at: NaiveDateTime,
}

impl Default for Tag {
    fn default() -> (tag: Self)
        ensures
            tag.id.0 == 0,
            tag.name@ == Seq::<char>::empty(),
            tag.kana@ == Seq::<char>::empty(),
            tag.aliases.seq() == Seq::<Seq<char>>::empty(),
            tag.parent is None,
            tag.children@ == Seq::<Tag>::empty(),
    {
        Tag {
            id: TagId(0),
            name: String::new(),
            kana: String::new(),
            aliases: AliasSet::empty(),
            parent: None,
            children: Vec::new(),
            created_at: naive_date_time_min(),
            updated_at: naive_date_time_min(),
        }
    }
}

/// The error of a tag that does not exist.
#[derive(Debug, PartialEq, Eq)]
pub enum TagError {
    NotFound(TagId),
}

/// Over the sets of aliases that `add_all` and `remove_all` state their
/// effect in: adding the same aliases twice is adding them once, and
/// removing the aliases just added leaves the earlier aliases less those.
pub proof fn lemma_alias_updates(start: Set<Seq<char>>, added: Set<Seq<char>>)
    ensures
        start.union(added).union(added) == start.union(added),
        start.union(added).difference(added) == start.difference(added),
{
    assert(start.union(added).union(added) =~= start.union(added));
    assert(start.union(added).difference(added) =~= start.difference(added));
}

} // verus!
