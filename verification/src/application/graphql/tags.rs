//! Tags in the API: how deep a selection expands them, their cursors, and
//! the shapes in which tags and tag types are shown.

use vstd::prelude::*;

use crate::base64_text::{base64_decode, base64_decoded, base64_encode, base64_encoding};
use crate::domain::entity::tag_types::{self, TagTypeId};
use crate::domain::entity::tags::{self, strictly_sorted, AliasSet, TagDepth, TagId};
use chrono::NaiveDateTime;
use crate::text::{bytes_of, first_occurrence, lemma_first_occurrence, split_once_char, string_append, string_from_utf8, string_of, string_push};
use crate::uuid_text::{uuid_hyphenated, uuid_parse, uuid_parsed, uuid_to_string};

verus! {

/// Parent and children levels counted from level `i` of a selection, where
/// `levels[i]` tells whether the selection asks for `parent` and for
/// `children` at nesting level `i + 1`. Counting stops at the first level
/// that asks for neither.
pub open spec fn depth_from(levels: Seq<(bool, bool)>, i: int) -> (nat, nat)
    decreases levels.len() - i,
{
    if i < 0 || i >= levels.len() || levels[i] == (false, false) {
        (0, 0)
    } else {
        let rest = depth_from(levels, i + 1);
        (
            rest.0 + if levels[i].0 { 1nat } else { 0nat },
            rest.1 + if levels[i].1 { 1nat } else { 0nat },
        )
    }
}

/// The depth never counts more levels than the selection has.
pub proof fn lemma_depth_from_bounded(levels: Seq<(bool, bool)>, i: int)
    requires
        0 <= i <= levels.len(),
    ensures
        depth_from(levels, i).0 <= levels.len() - i,
        depth_from(levels, i).1 <= levels.len() - i,
    decreases levels.len() - i,
{
    if i < levels.len() && levels[i] != (false, false) {
        lemma_depth_from_bounded(levels, i + 1);
    }
}

/// The levels that a depth counts are those before the first level that asks
/// for neither field: the parent count is how many of them ask for `parent`,
/// and the children count how many ask for `children`.
pub proof fn lemma_depth_counts_levels(levels: Seq<(bool, bool)>, stop: int)
    requires
        0 <= stop <= levels.len(),
        forall|j: int| 0 <= j < stop ==> #[trigger] levels[j] != (false, false),
        stop < levels.len() ==> levels[stop] == (false, false),
    ensures
        depth_from(levels, 0).0 == levels.take(stop).filter(|l: (bool, bool)| l.0).len(),
        depth_from(levels, 0).1 == levels.take(stop).filter(|l: (bool, bool)| l.1).len(),
{
    lemma_depth_counts_from(levels, 0, stop);
    assert(levels.subrange(0, stop) =~= levels.take(stop));
}

proof fn lemma_depth_counts_from(levels: Seq<(bool, bool)>, i: int, stop: int)
    requires
        0 <= i <= stop <= levels.len(),
        forall|j: int| 0 <= j < stop ==> #[trigger] levels[j] != (false, false),
        stop < levels.len() ==> levels[stop] == (false, false),
    ensures
        depth_from(levels, i).0 == levels.subrange(i, stop).filter(|l: (bool, bool)| l.0).len(),
        depth_from(levels, i).1 == levels.subrange(i, stop).filter(|l: (bool, bool)| l.1).len(),
    decreases stop - i,
{
    let p0 = |l: (bool, bool)| l.0;
    let p1 = |l: (bool, bool)| l.1;
    if i == stop {
        assert(levels.subrange(i, stop) =~= Seq::<(bool, bool)>::empty());
        assert(Seq::<(bool, bool)>::empty().filter(p0) =~= Seq::<(bool, bool)>::empty());
        assert(Seq::<(bool, bool)>::empty().filter(p1) =~= Seq::<(bool, bool)>::empty());
    } else {
        lemma_depth_counts_from(levels, i + 1, stop);
        let rest = levels.subrange(i + 1, stop);
        assert(levels.subrange(i, stop) =~= seq![levels[i]] + rest);
        rest.lemma_filter_prepend(levels[i], p0);
        rest.lemma_filter_prepend(levels[i], p1);
    }
}

/// The depth of a tag selection from the presence of its nested `parent`
/// and `children` fields, level by level.
pub fn tag_depth_from_levels(levels: &Vec<(bool, bool)>) -> (depth: TagDepth)
    requires
        levels@.len() <= u32::MAX,
    ensures
        depth.parent_spec() == depth_from(levels@, 0).0,
        depth.children_spec() == depth_from(levels@, 0).1,
{
    let mut stop: usize = 0;
    while stop < levels.len() && !(levels[stop].0 == false && levels[stop].1 == false)
        invariant
            stop <= levels@.len(),
            forall|j: int| 0 <= j < stop ==> levels@[j] != (false, false),
        decreases levels@.len() - stop,
    {
        stop = stop + 1;
    }
    let mut parent: u32 = 0;
    let mut children: u32 = 0;
    let mut i = stop;
    proof {
        lemma_depth_from_bounded(levels@, stop as int);
    }
    while i > 0
        invariant
            i <= stop <= levels@.len() <= u32::MAX,
            forall|j: int| 0 <= j < stop ==> levels@[j] != (false, false),
            stop == levels@.len() || levels@[stop as int] == (false, false),
            parent == depth_from(levels@, i as int).0,
            children == depth_from(levels@, i as int).1,
            parent <= stop - i,
            children <= stop - i,
        decreases i,
    {
        i = i - 1;
        if levels[i].0 {
            parent = parent + 1;
        }
        if levels[i].1 {
            children = children + 1;
        }
    }
    TagDepth::new(parent, children)
}

} // verus!

verus! {

/// Position of a tag in a listing ordered by kana, then id.
pub struct TagCursor {
    kana: String,
    id: u128,
}

/// Why a cursor text could not be read.
#[derive(Clone, Copy, Debug, PartialEq, Eq, Structural)]
pub enum CursorError {
    Base64,
    Utf8,
    InvalidCursor,
    DateTime,
    Uuid,
}

/// The text of the cursor at `kana` and `id`: the base64 of the UTF-8 of
/// the kana, a NUL character and the hyphenated id.
pub open spec fn tag_cursor_text(kana: Seq<char>, id: u128) -> Seq<char> {
    base64_encoding(vstd::utf8::encode_utf8(kana + seq!['\0'] + uuid_hyphenated(id)))
}

/// What a cursor text is read as.
pub open spec fn tag_cursor_of(text: Seq<char>) -> Result<(Seq<char>, u128), CursorError> {
    match base64_decoded(text) {
        None => Err(CursorError::Base64),
        Some(bytes) => if !vstd::utf8::valid_utf8(bytes) {
            Err(CursorError::Utf8)
        } else {
            let t = vstd::utf8::decode_utf8(bytes);
            match first_occurrence(t, '\0') {
                None => Err(CursorError::InvalidCursor),
                Some(k) => match uuid_parsed(t.skip(k + 1)) {
                    None => Err(CursorError::Uuid),
                    Some(v) => Ok((t.take(k), v)),
                },
            }
        },
    }
}

/// The plain text inside a cursor's base64 decodes back into its parts.
pub proof fn lemma_cursor_plain(kana: Seq<char>, id: u128)
    requires
        !kana.contains('\0'),
    ensures
        ({
            let plain = kana + seq!['\0'] + uuid_hyphenated(id);
            &&& vstd::utf8::valid_utf8(vstd::utf8::encode_utf8(plain))
            &&& vstd::utf8::decode_utf8(vstd::utf8::encode_utf8(plain)) == plain
            &&& first_occurrence(plain, '\0') == Some(kana.len() as int)
            &&& plain.take(kana.len() as int) == kana
            &&& plain.skip(kana.len() as int + 1) == uuid_hyphenated(id)
        }),
{
    let plain = kana + seq!['\0'] + uuid_hyphenated(id);
    vstd::utf8::encode_utf8_valid_utf8(plain);
    vstd::utf8::encode_utf8_decode_utf8(plain);
    assert forall|j: int| 0 <= j < kana.len() implies plain[j] != '\0' by {
        assert(plain[j] == kana[j]);
    }
    lemma_first_occurrence(plain, '\0', kana.len() as int);
    assert(plain.take(kana.len() as int) =~= kana);
    assert(plain.skip(kana.len() as int + 1) =~= uuid_hyphenated(id));
}

impl TagCursor {
    pub closed spec fn kana(&self) -> Seq<char> {
        self.kana@
    }

    pub closed spec fn id(&self) -> u128 {
        self.id
    }

    pub fn new(kana: String, id: u128) -> (c: Self)
        ensures
            c.kana() == kana@,
            c.id() == id,
    {
        TagCursor { kana, id }
    }

    /// The kana and the tag id of the cursor.
    pub fn into_inner(self) -> (r: (String, TagId))
        ensures
            r.0@ == self.kana(),
            r.1 == TagId(self.id()),
    {
        (self.kana, TagId(self.id))
    }

    /// The text of the cursor.
    pub fn encode_cursor(&self) -> (text: String)
        ensures
            text@ == tag_cursor_text(self.kana(), self.id()),
    {
        let mut s = string_of(self.kana.as_str());
        string_push(&mut s, '\0');
        let id_text = uuid_to_string(self.id);
        string_append(&mut s, id_text.as_str());
        assert(s@ == self.kana@ + seq!['\0'] + uuid_hyphenated(self.id));
        let bytes = bytes_of(s.as_str());
        base64_encode(bytes.as_slice())
    }

    /// Reads a cursor text. The text of a cursor whose kana holds no NUL
    /// character reads back as that cursor.
    pub fn decode_cursor(text: &str) -> (r: Result<Self, CursorError>)
        ensures
            match tag_cursor_of(text@) {
                Ok((kana, id)) => r is Ok && r->Ok_0.kana() == kana && r->Ok_0.id() == id,
                Err(e) => r == Err::<Self, CursorError>(e),
            },
            forall|kana: Seq<char>, id: u128|
                #[trigger] tag_cursor_text(kana, id) == text@ && !kana.contains('\0') ==> (r is Ok
                    && r->Ok_0.kana() == kana && r->Ok_0.id() == id),
    {
        let ghost t = text@;
        match base64_decode(text) {
            None => {
                proof {
                    assert forall|kana: Seq<char>, id: u128|
                        #[trigger] tag_cursor_text(kana, id) == t && !kana.contains('\0') implies false by {
                        assert(base64_encoding(vstd::utf8::encode_utf8(kana + seq!['\0'] + uuid_hyphenated(id))) == t);
                    }
                }
                Err(CursorError::Base64)
            },
            Some(bytes) => {
                let ghost b = bytes@;
                match string_from_utf8(bytes) {
                    None => {
                        proof {
                            assert forall|kana: Seq<char>, id: u128|
                                #[trigger] tag_cursor_text(kana, id) == t && !kana.contains('\0') implies false by {
                                lemma_cursor_plain(kana, id);
                            }
                        }
                        Err(CursorError::Utf8)
                    },
                    Some(s) => {
                        let ghost d = s@;
                        proof {
                            assert forall|kana: Seq<char>, id: u128|
                                #[trigger] tag_cursor_text(kana, id) == t && !kana.contains('\0') implies d == kana + seq!['\0'] + uuid_hyphenated(id) && first_occurrence(d, '\0') == Some(kana.len() as int) by {
                                lemma_cursor_plain(kana, id);
                            }
                        }
                        match split_once_char(s.as_str(), '\0') {
                            None => Err(CursorError::InvalidCursor),
                            Some((kana, rest)) => {
                                proof {
                                    assert forall|k: Seq<char>, id: u128|
                                        #[trigger] tag_cursor_text(k, id) == t && !k.contains('\0') implies rest@ == uuid_hyphenated(id) && kana@ == k by {
                                        lemma_cursor_plain(k, id);
                                    }
                                }
                                match uuid_parse(rest.as_str()) {
                                    None => Err(CursorError::Uuid),
                                    Some(id) => Ok(TagCursor { kana, id }),
                                }
                            },
                        }
                    },
                }
            },
        }
    }
}

} // verus!

verus! {

/// A tag as the API shows it: its ancestors up the `parent` chain and its
/// descendants down the `children` lists.
pub struct Tag {
    pub id: u128,
    pub name: String,
    pub kana: String,
    pub aliases: Vec<String>,
    pub parent: Option<Box<TagParent>>,
    pub children: Vec<TagChild>,
    pub created_at: NaiveDateTime,
    pub updated_at: NaiveDateTime,
}

/// An ancestor of a shown tag, with its own ancestors.
pub struct TagParent {
    pub id: u128,
    pub name: String,
    pub kana: String,
    pub aliases: Vec<String>,
    pub parent: Option<Box<TagParent>>,
    pub created_at: NaiveDateTime,
    pub updated_at: NaiveDateTime,
}

/// A descendant of a shown tag, with its own descendants.
pub struct TagChild {
    pub id: u128,
    pub name: String,
    pub kana: String,
    pub aliases: Vec<String>,
    pub children: Vec<TagChild>,
    pub created_at: NaiveDateTime,
    pub updated_at: NaiveDateTime,
}

/// The aliases as the API lists them: those of the set, in increasing order
/// and each once.
pub open spec fn shown_aliases(aliases: Vec<String>, set: AliasSet) -> bool {
    &&& aliases@.map_values(|a: String| a@) == set.seq()
    &&& strictly_sorted(aliases@.map_values(|a: String| a@))
}

/// `p` shows the tag `t` and, up its `parent` chain, every ancestor of `t`.
pub open spec fn shows_ancestors(p: TagParent, t: tags::Tag) -> bool
    decreases t,
{
    &&& p.id == t.id.0
    &&& p.name@ == t.name@
    &&& p.kana@ == t.kana@
    &&& shown_aliases(p.aliases, t.aliases)
    &&& p.created_at == t.created_at
    &&& p.updated_at == t.updated_at
    &&& match t.parent {
        Some(tp) => match p.parent {
            Some(pp) => shows_ancestors(*pp, *tp),
            None => false,
        },
        None => p.parent is None,
    }
}

/// `c` shows the tag `t` and, down its `children` lists, every descendant
/// of `t`, in the same order.
pub open spec fn shows_descendants(c: TagChild, t: tags::Tag) -> bool
    decreases t,
{
    &&& c.id == t.id.0
    &&& c.name@ == t.name@
    &&& c.kana@ == t.kana@
    &&& shown_aliases(c.aliases, t.aliases)
    &&& c.created_at == t.created_at
    &&& c.updated_at == t.updated_at
    &&& c.children@.len() == t.children@.len()
    &&& forall|i: int|
        0 <= i < t.children@.len() ==> shows_descendants(#[trigger] c.children@[i], t.children@[i])
}

/// `g` shows the tag `t` with all the ancestors and descendants it carries.
pub open spec fn shows_tag(g: Tag, t: tags::Tag) -> bool {
    &&& g.id == t.id.0
    &&& g.name@ == t.name@
    &&& g.kana@ == t.kana@
    &&& shown_aliases(g.aliases, t.aliases)
    &&& g.created_at == t.created_at
    &&& g.updated_at == t.updated_at
    &&& match t.parent {
        Some(tp) => match g.parent {
            Some(pp) => shows_ancestors(*pp, *tp),
            None => false,
        },
        None => g.parent is None,
    }
    &&& g.children@.len() == t.children@.len()
    &&& forall|i: int|
        0 <= i < t.children@.len() ==> shows_descendants(#[trigger] g.children@[i], t.children@[i])
}

impl TagParent {
    fn of_tag(tag: tags::Tag) -> (p: Self)
        ensures
            shows_ancestors(p, tag),
        decreases tag,
    {
        let ghost t = tag;
        let parent = match tag.parent {
            Some(up) => Some(Box::new(TagParent::of_tag(*up))),
            None => None,
        };
        TagParent {
            id: tag.id.0,
            name: tag.name,
            kana: tag.kana,
            aliases: tag.aliases.into_inner(),
            parent,
            created_at: tag.created_at,
            updated_at: tag.updated_at,
        }
    }
}

impl TagChild {
    fn of_tag(tag: tags::Tag) -> (c: Self)
        ensures
            shows_descendants(c, tag),
        decreases tag, 1nat,
    {
        let ghost t = tag;
        let children = TagChild::of_tags(tag.children, Ghost(t));
        TagChild {
            id: tag.id.0,
            name: tag.name,
            kana: tag.kana,
            aliases: tag.aliases.into_inner(),
            children,
            created_at: tag.created_at,
            updated_at: tag.updated_at,
        }
    }

    fn of_tags(list: Vec<tags::Tag>, Ghost(owner): Ghost<tags::Tag>) -> (out: Vec<TagChild>)
        requires
            list@ == owner.children@,
        ensures
            out@.len() == list@.len(),
            forall|i: int| 0 <= i < list@.len() ==> shows_descendants(#[trigger] out@[i], list@[i]),
        decreases owner, 0nat,
    {
        let ghost all = list@;
        let mut rest = list;
        let mut out: Vec<TagChild> = Vec::new();
        while rest.len() > 0
            invariant
                all == owner.children@,
                out@.len() + rest@.len() == all.len(),
                rest@ == all.skip(out@.len() as int),
                forall|i: int| 0 <= i < out@.len() ==> shows_descendants(#[trigger] out@[i], all[i]),
            decreases rest@.len(),
        {
            let ghost k = out@.len() as int;
            let child = rest.remove(0);
            assert(child == all[k]);
            let shown = TagChild::of_tag(child);
            out.push(shown);
            assert(rest@ =~= all.skip(out@.len() as int));
        }
        out
    }
}

impl Tag {
    fn of_tag(tag: tags::Tag) -> (g: Self)
        ensures
            shows_tag(g, tag),
    {
        let ghost t = tag;
        let parent = match tag.parent {
            Some(up) => Some(Box::new(TagParent::of_tag(*up))),
            None => None,
        };
        let children = TagChild::of_tags(tag.children, Ghost(t));
        Tag {
            id: tag.id.0,
            name: tag.name,
            kana: tag.kana,
            aliases: tag.aliases.into_inner(),
            parent,
            children,
            created_at: tag.created_at,
            updated_at: tag.updated_at,
        }
    }
}

impl From<tags::Tag> for Tag {
    fn from(tag: tags::Tag) -> (g: Self)
        ensures
            shows_tag(g, tag),
    {
        Tag::of_tag(tag)
    }
}

impl vstd::std_specs::convert::FromSpecImpl<tags::Tag> for Tag {
    open spec fn obeys_from_spec() -> bool {
        false
    }

    open spec fn from_spec(v: tags::Tag) -> Self {
        arbitrary()
    }
}

impl From<tags::Tag> for TagParent {
    fn from(tag: tags::Tag) -> (p: Self)
        ensures
            shows_ancestors(p, tag),
    {
        TagParent::of_tag(tag)
    }
}

impl vstd::std_specs::convert::FromSpecImpl<tags::Tag> for TagParent {
    open spec fn obeys_from_spec() -> bool {
        false
    }

    open spec fn from_spec(v: tags::Tag) -> Self {
        arbitrary()
    }
}

impl From<tags::Tag> for TagChild {
    fn from(tag: tags::Tag) -> (c: Self)
        ensures
            shows_descendants(c, tag),
    {
        TagChild::of_tag(tag)
    }
}

impl vstd::std_specs::convert::FromSpecImpl<tags::Tag> for TagChild {
    open spec fn obeys_from_spec() -> bool {
        false
    }

    open spec fn from_spec(v: tags::Tag) -> Self {
        arbitrary()
    }
}

/// A tag of a listing with the cursor that points at it: the cursor holds
/// the tag's kana and id.
pub fn tag_edge(tag: tags::Tag) -> (edge: (TagCursor, Tag))
    ensures
        edge.0.kana() == tag.kana@,
        edge.0.id() == tag.id.0,
        shows_tag(edge.1, tag),
{
    let cursor = TagCursor::new(string_of(tag.kana.as_str()), tag.id.0);
    (cursor, Tag::of_tag(tag))
}

/// A tag type as the API shows it.
pub struct TagType {
    pub id: u128,
    pub slug: String,
    pub name: String,
}

impl From<tag_types::TagType> for TagType {
    fn from(tag_type: tag_types::TagType) -> (t: Self)
        ensures
            t.id == tag_type.id.0,
            t.slug@ == tag_type.slug@,
            t.name@ == tag_type.name@,
    {
        TagType { id: tag_type.id.0, slug: tag_type.slug, name: tag_type.name }
    }
}

impl vstd::std_specs::convert::FromSpecImpl<tag_types::TagType> for TagType {
    open spec fn obeys_from_spec() -> bool {
        false
    }

    open spec fn from_spec(v: tag_types::TagType) -> Self {
        arbitrary()
    }
}

/// A tag together with the type it has on a medium.
pub struct TagTagType {
    pub tag: Tag,
    pub tag_type: TagType,
}

impl TagTagType {
    pub fn new(tag: Tag, tag_type: TagType) -> (r: Self)
        ensures
            r.tag == tag,
            r.tag_type == tag_type,
    {
        TagTagType { tag, tag_type }
    }
}

/// The tag and tag type that an API input names.
pub struct TagTagTypeInput {
    pub tag_id: u128,
    pub tag_type_id: u128,
}

impl From<TagTagTypeInput> for (TagId, TagTypeId) {
    fn from(input: TagTagTypeInput) -> (r: Self)
        ensures
            r.0 == TagId(input.tag_id),
            r.1 == TagTypeId(input.tag_type_id),
    {
        (TagId(input.tag_id), TagTypeId(input.tag_type_id))
    }
}

impl vstd::std_specs::convert::FromSpecImpl<TagTagTypeInput> for (TagId, TagTypeId) {
    open spec fn obeys_from_spec() -> bool {
        true
    }

    open spec fn from_spec(input: TagTagTypeInput) -> Self {
        (TagId(input.tag_id), TagTypeId(input.tag_type_id))
    }
}

} // verus!
