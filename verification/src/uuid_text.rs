//! The text form of UUIDs.

use vstd::prelude::*;

verus! {

/// Lower-case hexadecimal digit of `n` (`0 <= n < 16`).
pub open spec fn hex_digit(n: int) -> char {
    if n < 10 {
        (('0' as int) + n) as char
    } else {
        (('a' as int) + n - 10) as char
    }
}

/// The `i`-th hexadecimal digit of `v`, counting from the most significant.
pub open spec fn nibble(v: u128, i: int) -> int {
    ((v as int) / pow16(31 - i)) % 16
}

pub open spec fn pow16(e: int) -> int
    decreases e,
{
    if e <= 0 {
        1
    } else {
        16 * pow16(e - 1)
    }
}

/// Number of hyphens before position `k` of the hyphenated form.
pub open spec fn hyphens_before(k: int) -> int {
    if k < 9 {
        0
    } else if k < 14 {
        1
    } else if k < 19 {
        2
    } else if k < 24 {
        3
    } else {
        4
    }
}

/// The hyphenated lower-case form of a UUID, such as
/// `67e55044-10b1-426f-9247-bb680e5fe0c8`: its 32 hexadecimal digits from
/// the most significant, in groups of 8, 4, 4, 4 and 12.
pub open spec fn uuid_hyphenated(v: u128) -> Seq<char> {
    Seq::new(
        36,
        |k: int|
            if k == 8 || k == 13 || k == 18 || k == 23 {
                '-'
            } else {
                hex_digit(nibble(v, k - hyphens_before(k)))
            },
    )
}

/// `Uuid::from_u128(v).to_string()` of `uuid`: `Display` of a `Uuid` writes
/// its hyphenated lower-case form.
#[verifier::external_body]
pub(crate) fn uuid_to_string(v: u128) -> (s: String)
    ensures
        s@ == uuid_hyphenated(v),
{
    uuid::Uuid::from_u128(v).to_string()
}

} // verus!

verus! {

/// What `Uuid::parse_str` makes of a text: the 128-bit value, or `None`
/// when the text is not a UUID in one of the forms it accepts.
pub uninterp spec fn uuid_parsed(text: Seq<char>) -> Option<u128>;

/// `Uuid::parse_str` of `uuid`, taken as its 128-bit value: parses the
/// simple, hyphenated, braced and URN forms. The hyphenated lower-case form
/// of a value parses to that value.
#[verifier::external_body]
pub(crate) fn uuid_parse(text: &str) -> (r: Option<u128>)
    ensures
        r == uuid_parsed(text@),
        forall|v: u128| #[trigger] uuid_hyphenated(v) == text@ ==> r == Some(v),
{
    uuid::Uuid::parse_str(text).ok().map(|u| u.as_u128())
}

} // verus!
