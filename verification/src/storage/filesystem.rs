//! Decisions of the filesystem object storage: which failure of the file
//! system becomes which object error, when an existing file may be written
//! over, and what a listing entry is. The file system calls themselves are
//! made by the caller, which hands their outcome in.

use vstd::prelude::*;

use crate::domain::repository::DeleteResult;
use crate::text::{chars_of, string_from_chars, string_push};
use vstd::string::*;

verus! {

/// The failures of file system calls that the storage tells apart.
#[derive(Clone, Copy, Debug, PartialEq, Eq, Structural)]
pub enum IoFailure {
    NotFound,
    AlreadyExists,
    IsADirectory,
    InvalidFilename,
    InvalidInput,
    Other,
}

/// A failure that says the path cannot name a file at all.
pub open spec fn bad_name(f: IoFailure) -> bool {
    f == IoFailure::InvalidFilename || f == IoFailure::InvalidInput
}

/// What an entry of the storage is.
#[derive(Clone, Copy, Debug, PartialEq, Eq, Structural)]
pub enum EntryKind {
    Container,
    Object,
    Unknown,
}

/// An entry of the storage: its file name, its URL where it has one, and
/// its kind.
#[derive(Clone, Debug, PartialEq, Eq)]
pub struct Entry {
    pub name: String,
    pub url: Option<String>,
    pub kind: EntryKind,
}

/// Whether `put` may write over an object that exists.
#[derive(Clone, Copy, Debug, PartialEq, Eq, Structural)]
pub enum ObjectOverwriteBehavior {
    Overwrite,
    Fail,
}

impl ObjectOverwriteBehavior {
    pub fn is_overwrite(&self) -> (r: bool)
        ensures
            r == (*self == ObjectOverwriteBehavior::Overwrite),
    {
        match self {
            ObjectOverwriteBehavior::Overwrite => true,
            ObjectOverwriteBehavior::Fail => false,
        }
    }
}

/// Whether `put` created the object or opened one that existed.
#[derive(Clone, Copy, Debug, PartialEq, Eq, Structural)]
pub enum ObjectStatus {
    Created,
    Existing,
}

/// Failures of the object operations, each with the URL it concerns.
#[derive(Clone, Debug, PartialEq, Eq)]
pub enum ObjectError {
    UrlInvalid { url: String },
    NotFound { url: String },
    AlreadyExists { url: String, entry: Option<Entry> },
    PutFailed { url: String },
    GetFailed { url: String },
    ListFailed { url: String },
    DeleteFailed { url: String },
}

/// Objects stored as files under a root directory.
pub struct FilesystemObjectsRepository {
    root_dir: String,
}

impl FilesystemObjectsRepository {
    pub closed spec fn root(&self) -> Seq<char> {
        self.root_dir@
    }

    pub fn new(root_dir: String) -> (r: Self)
        ensures
            r.root() == root_dir@,
    {
        FilesystemObjectsRepository { root_dir }
    }

    /// The directory that holds the objects.
    pub fn root_dir(&self) -> (r: &str)
        ensures
            r@ == self.root(),
    {
        self.root_dir.as_str()
    }

    /// The URL scheme of the objects of this storage.
    pub fn scheme() -> (s: &'static str)
        ensures
            s@ == "file"@,
    {
        "file"
    }
}

/// What one `/`-separated component does to the components kept so far:
/// an empty component and `.` change nothing, `..` drops the last kept
/// component and fails when there is none, any other component is kept.
pub open spec fn apply_component(kept: Seq<Seq<char>>, c: Seq<char>) -> Option<Seq<Seq<char>>> {
    if c.len() == 0 || c == seq!['.'] {
        Some(kept)
    } else if c == seq!['.', '.'] {
        if kept.len() == 0 {
            None
        } else {
            Some(kept.drop_last())
        }
    } else {
        Some(kept.push(c))
    }
}

/// The components kept after reading `p` from position `i`, with `kept`
/// already kept and `cur` the component read so far.
pub open spec fn normalize_from(p: Seq<char>, i: int, kept: Seq<Seq<char>>, cur: Seq<char>) -> Option<Seq<Seq<char>>>
    decreases p.len() - i,
{
    if i < 0 || i >= p.len() {
        apply_component(kept, cur)
    } else if p[i] == '/' {
        match apply_component(kept, cur) {
            Some(k) => normalize_from(p, i + 1, k, Seq::empty()),
            None => None,
        }
    } else {
        normalize_from(p, i + 1, kept, cur.push(p[i]))
    }
}

/// Components joined with `/`.
pub open spec fn joined(cs: Seq<Seq<char>>) -> Seq<char>
    decreases cs.len(),
{
    if cs.len() == 0 {
        Seq::empty()
    } else if cs.len() == 1 {
        cs[0]
    } else {
        joined(cs.drop_last()) + seq!['/'] + cs.last()
    }
}

/// The pieces of `s` between its `/` characters, in order: one more piece
/// than `s` has slashes, empty pieces included.
pub open spec fn split_slash(s: Seq<char>) -> Seq<Seq<char>>
    decreases s.len(),
{
    if s.len() == 0 {
        seq![Seq::empty()]
    } else if s.last() == '/' {
        split_slash(s.drop_last()).push(Seq::empty())
    } else {
        let pieces = split_slash(s.drop_last());
        pieces.update(pieces.len() - 1, pieces.last().push(s.last()))
    }
}

proof fn lemma_split_slash_nonempty(s: Seq<char>)
    ensures
        split_slash(s).len() >= 1,
    decreases s.len(),
{
    if s.len() > 0 {
        lemma_split_slash_nonempty(s.drop_last());
    }
}

/// Splitting `prefix + piece` where `piece` holds no `/` extends the last
/// piece of `prefix` by `piece`.
proof fn lemma_split_slash_append_piece(prefix: Seq<char>, piece: Seq<char>)
    requires
        !piece.contains('/'),
    ensures
        split_slash(prefix + piece) == split_slash(prefix).update(
            split_slash(prefix).len() - 1,
            split_slash(prefix).last() + piece,
        ),
    decreases piece.len(),
{
    lemma_split_slash_nonempty(prefix);
    if piece.len() == 0 {
        assert(prefix + piece =~= prefix);
        let ps = split_slash(prefix);
        assert(ps.last() + piece =~= ps.last());
        assert(ps.update(ps.len() - 1, ps.last()) =~= ps);
    } else {
        let init = piece.drop_last();
        assert(!init.contains('/')) by {
            if init.contains('/') {
                let k = choose|k: int| 0 <= k < init.len() && init[k] == '/';
                assert(piece[k] == '/');
            }
        }
        lemma_split_slash_append_piece(prefix, init);
        assert((prefix + piece).drop_last() =~= prefix + init);
        assert((prefix + piece).last() == piece.last());
        assert(piece.last() != '/') by {
            assert(piece[piece.len() - 1] == piece.last());
        }
        let ps = split_slash(prefix);
        let mid = ps.update(ps.len() - 1, ps.last() + init);
        assert(mid.last() == ps.last() + init);
        assert((ps.last() + init).push(piece.last()) =~= ps.last() + piece);
        assert(mid.update(mid.len() - 1, mid.last().push(piece.last())) =~= ps.update(
            ps.len() - 1,
            ps.last() + piece,
        ));
    }
}

/// Joining components that hold no `/` and splitting the result at `/`
/// gives back the components: the join puts exactly one `/` between
/// neighbouring components and nothing else.
pub proof fn lemma_split_joined(cs: Seq<Seq<char>>)
    requires
        cs.len() >= 1,
        forall|k: int| 0 <= k < cs.len() ==> !(#[trigger] cs[k]).contains('/'),
    ensures
        split_slash(joined(cs)) == cs,
    decreases cs.len(),
{
    if cs.len() == 1 {
        assert(Seq::<char>::empty() + cs[0] =~= cs[0]);
        lemma_split_slash_append_piece(Seq::empty(), cs[0]);
        assert(split_slash(Seq::<char>::empty()) == seq![Seq::<char>::empty()]);
        assert(seq![Seq::<char>::empty()].update(0, Seq::<char>::empty() + cs[0]) =~= cs);
    } else {
        let init = cs.drop_last();
        assert forall|k: int| 0 <= k < init.len() implies !(#[trigger] init[k]).contains('/') by {
            assert(init[k] == cs[k]);
        }
        lemma_split_joined(init);
        let head = joined(init) + seq!['/'];
        assert(head.drop_last() =~= joined(init));
        assert(head.last() == '/');
        assert(split_slash(head) == init.push(Seq::empty()));
        assert(!cs.last().contains('/')) by {
            assert(cs[cs.len() - 1] == cs.last());
        }
        lemma_split_slash_append_piece(head, cs.last());
        assert(joined(cs) == head + cs.last());
        let ps = init.push(Seq::<char>::empty());
        assert(ps.update(ps.len() - 1, ps.last() + cs.last()) =~= cs);
    }
}

/// The normal form of a relative path: its components without empty ones
/// and `.`, each `..` cancelling the component before it; `None` where a
/// `..` would go above the start.
pub open spec fn normalized(p: Seq<char>) -> Option<Seq<char>> {
    match normalize_from(p, 0, Seq::empty(), Seq::empty()) {
        Some(cs) => Some(joined(cs)),
        None => None,
    }
}

/// A component that normalization keeps as it is.
pub open spec fn plain_component(c: Seq<char>) -> bool {
    c.len() > 0 && c != seq!['.'] && c != seq!['.', '.']
}

proof fn lemma_joined_split(s: Seq<char>)
    ensures
        joined(split_slash(s)) == s,
    decreases s.len(),
{
    if s.len() > 0 {
        let init = s.drop_last();
        lemma_joined_split(init);
        lemma_split_slash_nonempty(init);
        let ps = split_slash(init);
        if s.last() == '/' {
            let next = ps.push(Seq::<char>::empty());
            assert(next.drop_last() =~= ps);
            assert(joined(next) == joined(ps) + seq!['/'] + Seq::<char>::empty());
            assert(init + seq!['/'] + Seq::<char>::empty() =~= s);
        } else {
            let next = ps.update(ps.len() - 1, ps.last().push(s.last()));
            assert(next.last() == ps.last().push(s.last()));
            if ps.len() == 1 {
                assert(joined(ps) == ps[0]);
                assert(ps.last() == ps[0]);
                assert(ps[0].push(s.last()) =~= s);
            } else {
                assert(next.drop_last() =~= ps.drop_last());
                assert(joined(ps) == joined(ps.drop_last()) + seq!['/'] + ps.last());
                assert(joined(next) == joined(ps.drop_last()) + seq!['/'] + ps.last().push(s.last()));
                assert(joined(ps.drop_last()) + seq!['/'] + ps.last().push(s.last()) =~= init.push(s.last()));
                assert(init.push(s.last()) =~= s);
            }
        }
    }
}

proof fn lemma_split_prefix(p: Seq<char>, i: int, j: int)
    requires
        0 <= i <= j <= p.len(),
    ensures
        ({
            let a = split_slash(p.take(i));
            let b = split_slash(p.take(j));
            &&& b.len() >= a.len()
            &&& forall|k: int| 0 <= k < a.len() - 1 ==> b[k] == a[k]
            &&& (i < j && p[i] == '/') ==> b.len() > a.len() && b[a.len() - 1] == a.last()
        }),
    decreases j - i,
{
    lemma_split_slash_nonempty(p.take(i));
    if i < j {
        lemma_split_prefix(p, i, j - 1);
        lemma_split_slash_nonempty(p.take(j - 1));
        assert(p.take(j).drop_last() =~= p.take(j - 1));
        assert(p.take(j).last() == p[j - 1]);
        if j - 1 == i && p[i] == '/' {
            assert(p.take(j - 1) =~= p.take(i));
        }
    }
}

proof fn lemma_normalize_plain_from(p: Seq<char>, i: int)
    requires
        0 <= i <= p.len(),
        forall|k: int| 0 <= k < split_slash(p).len() ==> plain_component(#[trigger] split_slash(p)[k]),
    ensures
        normalize_from(p, i, split_slash(p.take(i)).drop_last(), split_slash(p.take(i)).last())
            == Some(split_slash(p)),
    decreases p.len() - i,
{
    let a = split_slash(p.take(i));
    lemma_split_slash_nonempty(p.take(i));
    if i == p.len() {
        assert(p.take(i) =~= p);
        assert(plain_component(a[a.len() - 1]));
        assert(a.drop_last().push(a.last()) =~= a);
    } else {
        lemma_normalize_plain_from(p, i + 1);
        assert(p.take(i + 1).drop_last() =~= p.take(i));
        assert(p.take(i + 1).last() == p[i]);
        let b = split_slash(p.take(i + 1));
        if p[i] == '/' {
            lemma_split_prefix(p, i, p.len() as int);
            assert(p.take(p.len() as int) =~= p);
            assert(plain_component(split_slash(p)[a.len() - 1]));
            assert(a.drop_last().push(a.last()) =~= a);
            assert(b.drop_last() =~= a);
        } else {
            assert(b.drop_last() =~= a.drop_last());
        }
    }
}

/// A path whose components are all plain (none empty, `.` or `..`) is its
/// own normal form: normalization keeps every component, in order, and
/// joins them back with single slashes.
pub proof fn lemma_plain_path_is_normal(p: Seq<char>)
    requires
        forall|k: int| 0 <= k < split_slash(p).len() ==> plain_component(#[trigger] split_slash(p)[k]),
    ensures
        normalized(p) == Some(p),
{
    lemma_normalize_plain_from(p, 0);
    assert(p.take(0) =~= Seq::<char>::empty());
    assert(split_slash(Seq::<char>::empty()).drop_last() =~= Seq::<Seq<char>>::empty());
    lemma_joined_split(p);
}

/// A path whose first component is `..` goes above its start, so it has
/// no normal form, whatever follows.
pub proof fn lemma_leading_parent_is_refused(rest: Seq<char>)
    requires
        rest.len() == 0 || rest[0] == '/',
    ensures
        normalized(seq!['.', '.'] + rest) is None,
{
    let p = seq!['.', '.'] + rest;
    assert(p[0] == '.' && p[1] == '.');
    assert(Seq::<char>::empty().push('.').push('.') =~= seq!['.', '.']);
    assert(normalize_from(p, 0, Seq::empty(), Seq::empty()) == normalize_from(p, 1, Seq::empty(), seq!['.']));
    assert(Seq::<char>::empty().push('.') =~= seq!['.']);
    assert(seq!['.'].push('.') =~= seq!['.', '.']);
    assert(normalize_from(p, 1, Seq::empty(), seq!['.']) == normalize_from(p, 2, Seq::empty(), seq!['.', '.']));
    if rest.len() > 0 {
        assert(p[2] == '/');
    }
}

/// The character sequences of a list of character vectors.
pub open spec fn char_seqs(v: Seq<Vec<char>>) -> Seq<Seq<char>> {
    v.map_values(|x: Vec<char>| x@)
}

fn apply_component_to(kept: &mut Vec<Vec<char>>, cur: Vec<char>) -> (ok: bool)
    ensures
        ok == apply_component(char_seqs(old(kept)@), cur@) is Some,
        ok ==> char_seqs(final(kept)@) == apply_component(char_seqs(old(kept)@), cur@)->0,
{
    let ghost before = char_seqs(kept@);
    let n = cur.len();
    if n == 0 || (n == 1 && cur[0] == '.') {
        proof {
            if n == 1 {
                assert(cur@ =~= seq!['.']);
            }
        }
        true
    } else if n == 2 && cur[0] == '.' && cur[1] == '.' {
        assert(cur@ =~= seq!['.', '.']);
        if kept.len() == 0 {
            false
        } else {
            let _ = kept.pop();
            assert(char_seqs(kept@) =~= before.drop_last());
            true
        }
    } else {
        assert(cur@ != seq!['.']) by {
            if cur@ == seq!['.'] {
                assert(cur@.len() == 1);
            }
        }
        assert(cur@ != seq!['.', '.']) by {
            if cur@ == seq!['.', '.'] {
                assert(cur@.len() == 2 && cur@[0] == '.' && cur@[1] == '.');
            }
        }
        kept.push(cur);
        assert(char_seqs(kept@) =~= before.push(kept@.last()@));
        true
    }
}

fn join_components(kept: &Vec<Vec<char>>) -> (s: String)
    ensures
        s@ == joined(char_seqs(kept@)),
{
    let ghost cs = char_seqs(kept@);
    let mut s = String::new();
    let mut j: usize = 0;
    while j < kept.len()
        invariant
            cs == char_seqs(kept@),
            j <= kept@.len(),
            s@ == joined(cs.take(j as int)),
        decreases kept@.len() - j,
    {
        assert(cs.take(j + 1).drop_last() =~= cs.take(j as int));
        assert(cs.take(j + 1).last() == kept@[j as int]@);
        if j > 0 {
            string_push(&mut s, '/');
        } else {
            assert(cs.take(0) =~= Seq::<Seq<char>>::empty());
        }
        let part = &kept[j];
        let mut k: usize = 0;
        let ghost start = s@;
        while k < part.len()
            invariant
                k <= part@.len(),
                s@ == start + part@.take(k as int),
            decreases part@.len() - k,
        {
            string_push(&mut s, part[k]);
            assert(part@.take(k + 1) =~= part@.take(k as int).push(part@[k as int]));
            k = k + 1;
        }
        assert(part@.take(part@.len() as int) =~= part@);
        j = j + 1;
    }
    assert(cs.take(kept@.len() as int) =~= cs);
    s
}

/// The normal form of a relative path, or `None` where it would go above
/// its start.
pub fn normalize_path(p: &str) -> (r: Option<String>)
    ensures
        r matches Some(s) ==> normalized(p@) == Some(s@),
        r is None ==> normalized(p@) is None,
{
    let chars = chars_of(p);
    let mut kept: Vec<Vec<char>> = Vec::new();
    let mut cur: Vec<char> = Vec::new();
    let mut i: usize = 0;
    assert(char_seqs(kept@) =~= Seq::<Seq<char>>::empty());
    assert(cur@ =~= Seq::<char>::empty());
    while i < chars.len()
        invariant
            chars@ == p@,
            i <= chars@.len(),
            normalize_from(p@, 0, Seq::empty(), Seq::empty()) == normalize_from(p@, i as int, char_seqs(kept@), cur@),
        decreases chars@.len() - i,
    {
        if chars[i] == '/' {
            let ok = apply_component_to(&mut kept, cur);
            if !ok {
                return None;
            }
            cur = Vec::new();
            assert(cur@ =~= Seq::<char>::empty());
        } else {
            cur.push(chars[i]);
        }
        i = i + 1;
    }
    let ok = apply_component_to(&mut kept, cur);
    if !ok {
        return None;
    }
    Some(join_components(&kept))
}

/// The path of an object below the storage root, from the path of its URL:
/// the URL path must start with `/`, which is dropped, and the rest must
/// normalize without going above the root; any other URL is invalid.
pub fn object_path(url: String, url_path: &str) -> (r: Result<String, ObjectError>)
    ensures
        url_path@.len() > 0 && url_path@[0] == '/' ==> match normalized(url_path@.skip(1)) {
            Some(q) => r is Ok && r->Ok_0@ == q,
            None => r == Err::<String, ObjectError>(ObjectError::UrlInvalid { url }),
        },
        !(url_path@.len() > 0 && url_path@[0] == '/') ==> r == Err::<String, ObjectError>(
            ObjectError::UrlInvalid { url },
        ),
{
    let chars = chars_of(url_path);
    if chars.len() > 0 && chars[0] == '/' {
        let rest = string_from_chars(&chars, 1, chars.len());
        assert(chars@.subrange(1, chars@.len() as int) =~= url_path@.skip(1));
        match normalize_path(rest.as_str()) {
            Some(p) => Ok(p),
            None => Err(ObjectError::UrlInvalid { url }),
        }
    } else {
        Err(ObjectError::UrlInvalid { url })
    }
}

/// Whether `put` may write to the normalized object path: a path with no
/// component names the storage root itself, which is an invalid URL.
pub fn put_target_check(url: String, path: &str) -> (r: Result<(), ObjectError>)
    ensures
        path@.len() == 0 ==> r == Err::<(), ObjectError>(ObjectError::UrlInvalid { url }),
        path@.len() > 0 ==> r is Ok,
{
    if path.unicode_len() == 0 {
        Err(ObjectError::UrlInvalid { url })
    } else {
        Ok(())
    }
}

/// The error of `put` when the directories above the object could not be
/// made: a path that cannot name a file, or that runs into a missing one,
/// is an invalid URL; a path that runs through an existing file is taken by
/// that file, and no entry is reported; anything else is a failed put.
pub fn put_parent_failure(url: String, f: IoFailure) -> (e: ObjectError)
    ensures
        (bad_name(f) || f == IoFailure::NotFound) ==> e == (ObjectError::UrlInvalid { url }),
        f == IoFailure::AlreadyExists ==> e == (ObjectError::AlreadyExists { url, entry: None }),
        (f == IoFailure::IsADirectory || f == IoFailure::Other) ==> e == (ObjectError::PutFailed { url }),
{
    match f {
        IoFailure::InvalidFilename | IoFailure::InvalidInput | IoFailure::NotFound => ObjectError::UrlInvalid { url },
        IoFailure::AlreadyExists => ObjectError::AlreadyExists { url, entry: None },
        _ => ObjectError::PutFailed { url },
    }
}

/// Whether `put`, having failed to create the object, opens the existing
/// file instead: only when the file exists and overwriting was asked for.
pub fn put_opens_existing(f: IoFailure, overwrite: ObjectOverwriteBehavior) -> (r: bool)
    ensures
        r == (f == IoFailure::AlreadyExists && overwrite == ObjectOverwriteBehavior::Overwrite),
{
    match f {
        IoFailure::AlreadyExists => overwrite.is_overwrite(),
        _ => false,
    }
}

/// Whether the error of a failed `put` reports the entry in the way; the
/// caller then looks that entry up.
pub fn put_reports_existing(f: IoFailure) -> (r: bool)
    ensures
        r == (f == IoFailure::AlreadyExists),
{
    match f {
        IoFailure::AlreadyExists => true,
        _ => false,
    }
}

/// The error of a `put` whose file could not be opened. `existing` is what
/// was found at the path when the file already existed; it is reported only
/// when it is an object.
pub fn put_open_failure(url: String, f: IoFailure, existing: Option<Entry>) -> (e: ObjectError)
    ensures
        f == IoFailure::AlreadyExists ==> e == (ObjectError::AlreadyExists {
            url,
            entry: match existing {
                Some(entry) => if entry.kind == EntryKind::Object { Some(entry) } else { None },
                None => None,
            },
        }),
        f == IoFailure::IsADirectory ==> e == (ObjectError::AlreadyExists { url, entry: None }),
        (bad_name(f) || f == IoFailure::NotFound) ==> e == (ObjectError::UrlInvalid { url }),
        f == IoFailure::Other ==> e == (ObjectError::PutFailed { url }),
{
    match f {
        IoFailure::AlreadyExists => {
            let entry = match existing {
                Some(entry) => match entry.kind {
                    EntryKind::Object => Some(entry),
                    _ => None,
                },
                None => None,
            };
            ObjectError::AlreadyExists { url, entry }
        },
        IoFailure::IsADirectory => ObjectError::AlreadyExists { url, entry: None },
        IoFailure::InvalidFilename | IoFailure::InvalidInput | IoFailure::NotFound => ObjectError::UrlInvalid { url },
        IoFailure::Other => ObjectError::PutFailed { url },
    }
}

/// The error of a `get` whose file could not be opened.
pub fn get_failure(url: String, f: IoFailure) -> (e: ObjectError)
    ensures
        f == IoFailure::NotFound ==> e == (ObjectError::NotFound { url }),
        bad_name(f) ==> e == (ObjectError::UrlInvalid { url }),
        !(f == IoFailure::NotFound || bad_name(f)) ==> e == (ObjectError::GetFailed { url }),
{
    match f {
        IoFailure::NotFound => ObjectError::NotFound { url },
        IoFailure::InvalidFilename | IoFailure::InvalidInput => ObjectError::UrlInvalid { url },
        _ => ObjectError::GetFailed { url },
    }
}

/// The error of a `list` whose directory could not be read.
pub fn list_failure(url: String, f: IoFailure) -> (e: ObjectError)
    ensures
        f == IoFailure::NotFound ==> e == (ObjectError::NotFound { url }),
        bad_name(f) ==> e == (ObjectError::UrlInvalid { url }),
        !(f == IoFailure::NotFound || bad_name(f)) ==> e == (ObjectError::ListFailed { url }),
{
    match f {
        IoFailure::NotFound => ObjectError::NotFound { url },
        IoFailure::InvalidFilename | IoFailure::InvalidInput => ObjectError::UrlInvalid { url },
        _ => ObjectError::ListFailed { url },
    }
}

/// The outcome of a `delete` from the outcome of removing the file: a file
/// that is not there is no error, and nothing was deleted.
pub fn delete_outcome(url: String, removed: Result<(), IoFailure>) -> (r: Result<DeleteResult, ObjectError>)
    ensures
        removed is Ok ==> r == Ok::<DeleteResult, ObjectError>(DeleteResult::Deleted(1)),
        removed == Err::<(), IoFailure>(IoFailure::NotFound) ==> r == Ok::<DeleteResult, ObjectError>(DeleteResult::NotFound),
        (removed matches Err(f) && bad_name(f)) ==> r == Err::<DeleteResult, ObjectError>(ObjectError::UrlInvalid { url }),
        (removed matches Err(f) && f != IoFailure::NotFound && !bad_name(f)) ==> r == Err::<DeleteResult, ObjectError>(ObjectError::DeleteFailed { url }),
{
    match removed {
        Ok(()) => Ok(DeleteResult::Deleted(1)),
        Err(IoFailure::NotFound) => Ok(DeleteResult::NotFound),
        Err(IoFailure::InvalidFilename) | Err(IoFailure::InvalidInput) => Err(ObjectError::UrlInvalid { url }),
        Err(_) => Err(ObjectError::DeleteFailed { url }),
    }
}

/// The kind of an entry from its file type: a directory is a container,
/// anything else an object, and an entry whose type could not be read is of
/// unknown kind.
pub fn entry_kind(is_dir: Option<bool>) -> (k: EntryKind)
    ensures
        is_dir == Some(true) ==> k == EntryKind::Container,
        is_dir == Some(false) ==> k == EntryKind::Object,
        is_dir is None ==> k == EntryKind::Unknown,
{
    match is_dir {
        Some(true) => EntryKind::Container,
        Some(false) => EntryKind::Object,
        None => EntryKind::Unknown,
    }
}

} // verus!
