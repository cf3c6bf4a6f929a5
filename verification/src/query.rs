//! Tokenizing of free-text search queries.
//!
//! A query is split into keywords separated by spaces (U+0020) or ideographic
//! spaces (U+3000). A keyword that starts with a double quote extends to the
//! next double quote on the same line and keeps its inner spaces; the quotes
//! themselves are dropped.

use vstd::prelude::*;
use vstd::string::*;

verus! {

/// Characters that separate keywords.
pub open spec fn is_separator(c: char) -> bool {
    c == ' ' || c == '\u{3000}'
}

/// Position of the closing quote when scanning from `k`: the first `"` at or
/// after `k`, provided no line break comes before it.
pub open spec fn closing_quote_from(s: Seq<char>, k: int) -> Option<int>
    decreases s.len() - k,
{
    if k < 0 || k >= s.len() {
        None
    } else if s[k] == '"' {
        Some(k)
    } else if s[k] == '\n' {
        None
    } else {
        closing_quote_from(s, k + 1)
    }
}

/// End (exclusive) of the run of non-separator characters that starts at `k`.
pub open spec fn word_end_from(s: Seq<char>, k: int) -> int
    decreases s.len() - k,
{
    if k < 0 || k >= s.len() || is_separator(s[k]) {
        k
    } else {
        word_end_from(s, k + 1)
    }
}

/// The keywords of `s` found when scanning from position `i`.
pub open spec fn tokens_from(s: Seq<char>, i: int) -> Seq<Seq<char>>
    decreases s.len() - i,
{
    if i < 0 || i >= s.len() {
        Seq::empty()
    } else if is_separator(s[i]) {
        tokens_from(s, i + 1)
    } else if s[i] == '"' && closing_quote_from(s, i + 1) is Some {
        let j = closing_quote_from(s, i + 1)->0;
        if i < j < s.len() {
            seq![s.subrange(i + 1, j)] + tokens_from(s, j + 1)
        } else {
            Seq::empty()
        }
    } else {
        let k = word_end_from(s, i);
        if i < k <= s.len() {
            seq![s.subrange(i, k)] + tokens_from(s, k)
        } else {
            Seq::empty()
        }
    }
}

/// The keywords of a whole query, in the order they appear.
pub open spec fn query_tokens(s: Seq<char>) -> Seq<Seq<char>> {
    tokens_from(s, 0)
}

pub proof fn lemma_closing_quote_bounds(s: Seq<char>, k: int)
    ensures
        closing_quote_from(s, k) matches Some(j) ==> k <= j < s.len() && s[j] == '"',
    decreases s.len() - k,
{
    if 0 <= k < s.len() && s[k] != '"' && s[k] != '\n' {
        lemma_closing_quote_bounds(s, k + 1);
    }
}

pub proof fn lemma_word_end_bounds(s: Seq<char>, k: int)
    requires
        0 <= k <= s.len(),
    ensures
        k <= word_end_from(s, k) <= s.len(),
        forall|m: int| k <= m < word_end_from(s, k) ==> !is_separator(#[trigger] s[m]),
        word_end_from(s, k) < s.len() ==> is_separator(s[word_end_from(s, k)]),
    decreases s.len() - k,
{
    if k < s.len() && !is_separator(s[k]) {
        lemma_word_end_bounds(s, k + 1);
    }
}

/// A keyword found outside quotes is never empty and holds no separator.
/// In particular, in a query without double quotes every keyword is a
/// non-empty run of non-separator characters.
pub proof fn lemma_unquoted_keywords_are_words(s: Seq<char>, i: int)
    requires
        0 <= i <= s.len(),
        forall|k: int| 0 <= k < s.len() ==> s[k] != '"',
    ensures
        forall|t: int|
            0 <= t < tokens_from(s, i).len() ==> (#[trigger] tokens_from(s, i)[t]).len() > 0
                && forall|m: int| 0 <= m < tokens_from(s, i)[t].len() ==> !is_separator(tokens_from(s, i)[t][m]),
    decreases s.len() - i,
{
    if i < s.len() {
        if is_separator(s[i]) {
            lemma_unquoted_keywords_are_words(s, i + 1);
        } else {
            let k = word_end_from(s, i);
            lemma_word_end_bounds(s, i);
            lemma_word_end_bounds(s, i + 1);
            assert(k == word_end_from(s, i + 1));
            assert(k > i);
            lemma_unquoted_keywords_are_words(s, k);
            let rest = tokens_from(s, k);
            assert(tokens_from(s, i) == seq![s.subrange(i, k)] + rest);
            assert forall|t: int| 0 <= t < tokens_from(s, i).len() implies (#[trigger] tokens_from(s, i)[t]).len() > 0
                && forall|m: int| 0 <= m < tokens_from(s, i)[t].len() ==> !is_separator(tokens_from(s, i)[t][m]) by {
                if t == 0 {
                    assert(tokens_from(s, i)[t] == s.subrange(i, k));
                    assert forall|m: int| 0 <= m < k - i implies !is_separator(s.subrange(i, k)[m]) by {
                        assert(s.subrange(i, k)[m] == s[i + m]);
                    }
                } else {
                    assert(tokens_from(s, i)[t] == rest[t - 1]);
                }
            }
        }
    }
}

/// A query that is a single word, with neither separators nor double
/// quotes, is that one keyword.
pub proof fn lemma_single_word(s: Seq<char>)
    requires
        s.len() > 0,
        forall|k: int| 0 <= k < s.len() ==> s[k] != '"' && !is_separator(s[k]),
    ensures
        query_tokens(s) == seq![s],
{
    lemma_word_end_full(s, 0);
    assert(s.subrange(0, s.len() as int) == s);
    assert(tokens_from(s, s.len() as int) == Seq::<Seq<char>>::empty());
    assert(query_tokens(s) =~= seq![s]);
}

proof fn lemma_word_end_full(s: Seq<char>, k: int)
    requires
        0 <= k <= s.len(),
        forall|j: int| 0 <= j < s.len() ==> !is_separator(s[j]),
    ensures
        word_end_from(s, k) == s.len(),
    decreases s.len() - k,
{
    if k < s.len() {
        lemma_word_end_full(s, k + 1);
    }
}

/// Splits a search query into keywords.
pub trait QueryParserInterface {
    fn parse<'a>(&self, query: &'a str) -> (keywords: Vec<&'a str>)
        ensures
            keywords@.map_values(|k: &str| k@) == query_tokens(query@),
    ;
}

/// The query parser of the application.
#[derive(Clone, Copy)]
pub struct QueryParser;

impl QueryParser {
    pub fn new() -> (parser: Self) {
        QueryParser
    }

    /// The first `"` at or after `k` that is not preceded by a line break.
    fn find_closing_quote(chars: &Vec<char>, k: usize) -> (r: Option<usize>)
        requires
            k <= chars@.len(),
        ensures
            r matches Some(j) ==> closing_quote_from(chars@, k as int) == Some(j as int),
            r is None ==> closing_quote_from(chars@, k as int) is None,
    {
        let n = chars.len();
        let mut m = k;
        while m < n
            invariant
                n == chars@.len(),
                k <= m <= n,
                closing_quote_from(chars@, k as int) == closing_quote_from(chars@, m as int),
            decreases n - m,
        {
            if chars[m] == '"' {
                return Some(m);
            }
            if chars[m] == '\n' {
                return None;
            }
            m = m + 1;
        }
        None
    }

    /// End of the word that starts at `k`.
    fn find_word_end(chars: &Vec<char>, k: usize) -> (r: usize)
        requires
            k <= chars@.len(),
        ensures
            r == word_end_from(chars@, k as int),
    {
        let n = chars.len();
        let mut m = k;
        while m < n && !(chars[m] == ' ' || chars[m] == '\u{3000}')
            invariant
                n == chars@.len(),
                k <= m <= n,
                word_end_from(chars@, k as int) == word_end_from(chars@, m as int),
            decreases n - m,
        {
            m = m + 1;
        }
        m
    }
}

impl QueryParserInterface for QueryParser {
    fn parse<'a>(&self, query: &'a str) -> (keywords: Vec<&'a str>) {
        let chars = crate::text::chars_of(query);
        let n = chars.len();
        let ghost s = query@;
        let mut keywords: Vec<&'a str> = Vec::new();
        let mut i: usize = 0;
        while i < n
            invariant
                s == query@,
                chars@ == s,
                n == s.len(),
                i <= n,
                keywords@.map_values(|k: &str| k@) + tokens_from(s, i as int) == query_tokens(s),
            decreases n - i,
        {
            let ghost before = keywords@.map_values(|k: &str| k@);
            if chars[i] == ' ' || chars[i] == '\u{3000}' {
                i = i + 1;
            } else {
                let mut quoted: Option<usize> = None;
                if chars[i] == '"' {
                    quoted = Self::find_closing_quote(&chars, i + 1);
                }
                match quoted {
                    Some(j) => {
                        proof {
                            lemma_closing_quote_bounds(s, i + 1);
                        }
                        let keyword = query.substring_char(i + 1, j);
                        keywords.push(keyword);
                        assert(keywords@.map_values(|k: &str| k@) == before.push(
                            s.subrange(i + 1, j as int),
                        ));
                        i = j + 1;
                    },
                    None => {
                        let k = Self::find_word_end(&chars, i);
                        proof {
                            lemma_word_end_bounds(s, i as int);
                        }
                        let keyword = query.substring_char(i, k);
                        keywords.push(keyword);
                        assert(keywords@.map_values(|k: &str| k@) == before.push(
                            s.subrange(i as int, k as int),
                        ));
                        i = k;
                    },
                }
            }
        }
        keywords
    }
}

} // verus!
