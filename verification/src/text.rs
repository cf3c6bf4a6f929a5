//! Character-level helpers on `str` and `String` shared by the parsers and
//! the rules of the library.

use vstd::prelude::*;
use vstd::string::*;

verus! {

/// `String::push` from std: appends one character to the end of the string.
#[verifier::external_body]
pub(crate) fn string_push(s: &mut String, c: char)
    ensures
        final(s)@ == old(s)@.push(c),
{
    s.push(c);
}

/// The characters of `s`, in order.
pub fn chars_of(s: &str) -> (v: Vec<char>)
    ensures
        v@ == s@,
{
    let n = s.unicode_len();
    let mut v: Vec<char> = Vec::new();
    let mut i: usize = 0;
    while i < n
        invariant
            n == s@.len(),
            i <= n,
            v@ == s@.take(i as int),
        decreases n - i,
    {
        let c = s.get_char(i);
        assert(s@.take(i + 1) == s@.take(i as int).push(c));
        v.push(c);
        i = i + 1;
    }
    assert(s@.take(n as int) == s@);
    v
}

/// The string made of the characters `v[lo..hi]`.
pub fn string_from_chars(v: &Vec<char>, lo: usize, hi: usize) -> (s: String)
    requires
        lo <= hi <= v@.len(),
    ensures
        s@ == v@.subrange(lo as int, hi as int),
{
    let mut s = String::new();
    let mut k = lo;
    while k < hi
        invariant
            lo <= k <= hi <= v@.len(),
            s@ == v@.subrange(lo as int, k as int),
        decreases hi - k,
    {
        string_push(&mut s, v[k]);
        assert(v@.subrange(lo as int, k + 1) == v@.subrange(lo as int, k as int).push(v@[k as int]));
        k = k + 1;
    }
    s
}

/// A copy of `s` as an owned string.
pub fn string_of(s: &str) -> (r: String)
    ensures
        r@ == s@,
{
    s.to_owned()
}

/// Whether two strings hold the same characters.
pub fn text_eq(a: &str, b: &str) -> (r: bool)
    ensures
        r == (a@ == b@),
{
    let x = a.to_owned();
    let y = b.to_owned();
    x == y
}

} // verus!

verus! {

/// Strict lexicographic order on character sequences, comparing characters
/// by their code points. This is the order of `String`'s `Ord`, since UTF-8
/// preserves the order of code points byte by byte.
pub open spec fn text_lt(a: Seq<char>, b: Seq<char>) -> bool
    decreases a.len(),
{
    if a.len() == 0 {
        b.len() > 0
    } else if b.len() == 0 {
        false
    } else if (a[0] as int) < (b[0] as int) {
        true
    } else if a[0] == b[0] {
        text_lt(a.drop_first(), b.drop_first())
    } else {
        false
    }
}

pub proof fn lemma_text_lt_irreflexive(a: Seq<char>)
    ensures
        !text_lt(a, a),
    decreases a.len(),
{
    if a.len() > 0 {
        lemma_text_lt_irreflexive(a.drop_first());
    }
}

pub proof fn lemma_text_lt_transitive(a: Seq<char>, b: Seq<char>, c: Seq<char>)
    requires
        text_lt(a, b),
        text_lt(b, c),
    ensures
        text_lt(a, c),
    decreases a.len(),
{
    if a.len() > 0 && b.len() > 0 && c.len() > 0 {
        if a[0] == b[0] && b[0] == c[0] {
            lemma_text_lt_transitive(a.drop_first(), b.drop_first(), c.drop_first());
        }
    }
}

pub proof fn lemma_text_lt_total(a: Seq<char>, b: Seq<char>)
    requires
        a != b,
    ensures
        text_lt(a, b) || text_lt(b, a),
    decreases a.len(),
{
    if a.len() > 0 && b.len() > 0 {
        if a[0] == b[0] {
            if a.drop_first() == b.drop_first() {
                assert(a == seq![a[0]] + a.drop_first());
                assert(b == seq![b[0]] + b.drop_first());
            }
            lemma_text_lt_total(a.drop_first(), b.drop_first());
        } else {
        }
    } else if a.len() == 0 && b.len() == 0 {
        assert(a == b);
    }
}

pub proof fn lemma_push_to_set<A>(s: Seq<A>, x: A)
    ensures
        s.push(x).to_set() == s.to_set().insert(x),
{
    let t = s.push(x);
    assert forall|y: A| #[trigger] t.contains(y) implies s.contains(y) || y == x by {
        let k = choose|k: int| 0 <= k < t.len() && t[k] == y;
        if k < s.len() {
            assert(s[k] == y);
        }
    }
    assert forall|y: A| #[trigger] s.contains(y) implies t.contains(y) by {
        let k = choose|k: int| 0 <= k < s.len() && s[k] == y;
        assert(t[k] == y);
    }
    assert(t[s.len() as int] == x);
    assert(t.to_set() =~= s.to_set().insert(x));
}

/// Compares two strings by `text_lt`.
pub fn text_less(a: &str, b: &str) -> (r: bool)
    ensures
        r == text_lt(a@, b@),
{
    let x = chars_of(a);
    let y = chars_of(b);
    let mut i: usize = 0;
    assert(x@.skip(0) == x@);
    assert(y@.skip(0) == y@);
    while i < x.len() && i < y.len() && x[i] == y[i]
        invariant
            x@ == a@,
            y@ == b@,
            i <= x@.len(),
            i <= y@.len(),
            text_lt(a@, b@) == text_lt(x@.skip(i as int), y@.skip(i as int)),
        decreases x@.len() - i,
    {
        assert(x@.skip(i as int).drop_first() == x@.skip(i + 1));
        assert(y@.skip(i as int).drop_first() == y@.skip(i + 1));
        i = i + 1;
    }
    let ghost xs = x@.skip(i as int);
    let ghost ys = y@.skip(i as int);
    if i == x.len() {
        assert(xs.len() == 0);
        i < y.len()
    } else if i == y.len() {
        assert(ys.len() == 0);
        false
    } else {
        assert(xs[0] == x@[i as int] && ys[0] == y@[i as int]);
        x[i] < y[i]
    }
}

} // verus!

verus! {

/// `s` with every occurrence of the character `from` replaced by `to`.
pub open spec fn replaced(s: Seq<char>, from: char, to: Seq<char>) -> Seq<char>
    decreases s.len(),
{
    if s.len() == 0 {
        Seq::empty()
    } else {
        replaced(s.drop_last(), from, to) + if s.last() == from {
            to
        } else {
            seq![s.last()]
        }
    }
}

/// `str::replace` from std with a character pattern: a new string in which
/// every occurrence of `from` is replaced by `to`.
#[verifier::external_body]
pub(crate) fn str_replace_char(s: &str, from: char, to: &str) -> (r: String)
    ensures
        r@ == replaced(s@, from, to@),
{
    s.replace(from, to)
}

/// Appends `t` to `s`.
pub fn string_append(s: &mut String, t: &str)
    ensures
        final(s)@ == old(s)@ + t@,
{
    let chars = chars_of(t);
    let ghost start = s@;
    let mut i: usize = 0;
    while i < chars.len()
        invariant
            chars@ == t@,
            i <= chars@.len(),
            s@ == start + t@.take(i as int),
        decreases chars@.len() - i,
    {
        string_push(s, chars[i]);
        assert(t@.take(i + 1) == t@.take(i as int).push(t@[i as int]));
        assert(start + t@.take(i + 1) =~= (start + t@.take(i as int)).push(t@[i as int]));
        i = i + 1;
    }
    assert(t@.take(chars@.len() as int) == t@);
}

} // verus!

verus! {

/// The UTF-8 bytes of `s`.
pub fn bytes_of(s: &str) -> (v: Vec<u8>)
    ensures
        v@ == vstd::utf8::encode_utf8(s@),
{
    let b = s.as_bytes();
    let mut v: Vec<u8> = Vec::new();
    let mut i: usize = 0;
    while i < b.len()
        invariant
            b@ == vstd::utf8::encode_utf8(s@),
            i <= b@.len(),
            v@ == b@.take(i as int),
        decreases b@.len() - i,
    {
        v.push(b[i]);
        assert(v@ =~= b@.take(i + 1));
        i = i + 1;
    }
    assert(b@.take(b@.len() as int) =~= b@);
    v
}

} // verus!

verus! {

/// `String::from_utf8` from std: the text of UTF-8 bytes, or `None` when the
/// bytes are not valid UTF-8.
#[verifier::external_body]
pub(crate) fn string_from_utf8(bytes: Vec<u8>) -> (r: Option<String>)
    ensures
        r is Some == vstd::utf8::valid_utf8(bytes@),
        r is Some ==> r->0@ == vstd::utf8::decode_utf8(bytes@),
{
    String::from_utf8(bytes).ok()
}

/// Position of the first occurrence of `c` in `s`.
pub open spec fn first_occurrence(s: Seq<char>, c: char) -> Option<int> {
    if exists|k: int| 0 <= k < s.len() && s[k] == c {
        Some(choose|k: int| 0 <= k < s.len() && s[k] == c && forall|j: int| 0 <= j < k ==> s[j] != c)
    } else {
        None
    }
}

pub proof fn lemma_first_occurrence(s: Seq<char>, c: char, k: int)
    requires
        0 <= k <= s.len(),
        forall|j: int| 0 <= j < k ==> s[j] != c,
        k == s.len() || s[k] == c,
    ensures
        k < s.len() ==> first_occurrence(s, c) == Some(k),
        k == s.len() ==> first_occurrence(s, c) is None,
{
    if k < s.len() {
        assert(exists|m: int| 0 <= m < s.len() && s[m] == c);
        let m = choose|m: int| 0 <= m < s.len() && s[m] == c && forall|j: int| 0 <= j < m ==> s[j] != c;
        assert(m == k) by {
            if m < k {
            } else if m > k {
            }
        }
    }
}

/// `str::split_once` from std with a character: the text before and after
/// the first occurrence of `c`.
pub fn split_once_char(s: &str, c: char) -> (r: Option<(String, String)>)
    ensures
        first_occurrence(s@, c) is None ==> r is None,
        first_occurrence(s@, c) matches Some(k) ==> r is Some && (r->0).0@ == s@.take(k) && (r->0).1@ == s@.skip(k + 1),
{
    let chars = chars_of(s);
    let mut k: usize = 0;
    while k < chars.len() && chars[k] != c
        invariant
            chars@ == s@,
            k <= chars@.len(),
            forall|j: int| 0 <= j < k ==> chars@[j] != c,
        decreases chars@.len() - k,
    {
        k = k + 1;
    }
    proof {
        lemma_first_occurrence(s@, c, k as int);
    }
    if k == chars.len() {
        None
    } else {
        let before = string_from_chars(&chars, 0, k);
        let after = string_from_chars(&chars, k + 1, chars.len());
        assert(chars@.subrange(0, k as int) =~= s@.take(k as int));
        assert(chars@.subrange(k + 1, chars@.len() as int) =~= s@.skip(k + 1));
        Some((before, after))
    }
}

} // verus!
