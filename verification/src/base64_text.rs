//! Base64 text of bytes, in the standard alphabet with padding.

use vstd::prelude::*;

verus! {

/// The character of a 6-bit value in the standard alphabet.
pub open spec fn base64_char(n: int) -> char {
    if n < 26 {
        (('A' as int) + n) as char
    } else if n < 52 {
        (('a' as int) + n - 26) as char
    } else if n < 62 {
        (('0' as int) + n - 52) as char
    } else if n == 62 {
        '+'
    } else {
        '/'
    }
}

/// The padded base64 text of `b`: every 3 bytes become 4 characters, and a
/// last group of 1 or 2 bytes is completed with `=`.
pub open spec fn base64_encoding(b: Seq<u8>) -> Seq<char>
    decreases b.len(),
{
    if b.len() == 0 {
        Seq::empty()
    } else if b.len() == 1 {
        seq![base64_char((b[0] as int) / 4), base64_char(((b[0] as int) % 4) * 16), '=', '=']
    } else if b.len() == 2 {
        seq![
            base64_char((b[0] as int) / 4),
            base64_char(((b[0] as int) % 4) * 16 + (b[1] as int) / 16),
            base64_char(((b[1] as int) % 16) * 4),
            '=',
        ]
    } else {
        seq![
            base64_char((b[0] as int) / 4),
            base64_char(((b[0] as int) % 4) * 16 + (b[1] as int) / 16),
            base64_char(((b[1] as int) % 16) * 4 + (b[2] as int) / 64),
            base64_char((b[2] as int) % 64),
        ] + base64_encoding(b.skip(3))
    }
}

/// What `base64::decode` makes of a text: the bytes, or `None` when the text
/// is not canonical padded base64.
pub uninterp spec fn base64_decoded(text: Seq<char>) -> Option<Seq<u8>>;

/// `base64::encode` (the standard engine): the padded base64 text of the
/// bytes.
#[verifier::external_body]
pub(crate) fn base64_encode(bytes: &[u8]) -> (text: String)
    ensures
        text@ == base64_encoding(bytes@),
{
    #[allow(deprecated)]
    base64::encode(bytes)
}

/// `base64::decode` (the standard engine): the bytes of a base64 text. The
/// padded encoding of any bytes decodes to those bytes.
#[verifier::external_body]
pub(crate) fn base64_decode(text: &str) -> (r: Option<Vec<u8>>)
    ensures
        match r {
            Some(v) => base64_decoded(text@) == Some(v@),
            None => base64_decoded(text@) is None,
        },
        forall|b: Seq<u8>| #[trigger] base64_encoding(b) == text@ ==> r is Some && r->0@ == b,
{
    #[allow(deprecated)]
    base64::decode(text).ok()
}

} // verus!
