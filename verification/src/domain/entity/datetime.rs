//! Timestamps of the entities, carried through the library unchanged, and
//! their text form in cursors.

use vstd::prelude::*;

verus! {

/// `chrono::NaiveDateTime`: a date and time without a time zone. The library
/// only stores and copies such values.
#[verifier::external_type_specification]
#[verifier::external_body]
pub struct ExNaiveDateTime(chrono::NaiveDateTime);

/// `chrono::NaiveDateTime::MIN`, the earliest representable date and time.
/// Nothing about its value is used here.
#[verifier::external_body]
pub(crate) fn naive_date_time_min() -> (t: chrono::NaiveDateTime) {
    chrono::NaiveDateTime::MIN
}

/// Whether chrono reads `text` as a date and time in the format `fmt`.
pub uninterp spec fn date_time_parses(text: Seq<char>, fmt: Seq<char>) -> bool;

/// The date and time that chrono reads from `text` in the format `fmt`.
pub uninterp spec fn read_date_time(text: Seq<char>, fmt: Seq<char>) -> chrono::NaiveDateTime;

/// The text that chrono writes for the date and time `t` in the format `fmt`.
pub uninterp spec fn date_time_text(t: chrono::NaiveDateTime, fmt: Seq<char>) -> Seq<char>;

/// `chrono::NaiveDateTime::parse_from_str`: reads a date and time written in
/// the strftime-like format `fmt`. It succeeds exactly on the texts that
/// chrono accepts, and gives the value read from the text.
#[verifier::external_body]
pub(crate) fn parse_date_time(text: &str, fmt: &str) -> (r: Option<chrono::NaiveDateTime>)
    ensures
        r is Some <==> date_time_parses(text@, fmt@),
        r matches Some(t) ==> t == read_date_time(text@, fmt@),
{
    chrono::NaiveDateTime::parse_from_str(text, fmt).ok()
}

/// The format of the timestamps that cursors hold: date, `T`, time and the
/// fraction of the second that is not zero.
pub open spec fn cursor_date_time_format() -> Seq<char> {
    "%Y-%m-%dT%H:%M:%S%.f"@
}

/// `chrono::NaiveDateTime::format` written out with `to_string`: the date
/// and time in the strftime-like format `fmt`. Writing panics on a format
/// that chrono rejects, so only the cursor format is admitted. The text is
/// named: it depends on the value and the format alone.
#[verifier::external_body]
pub(crate) fn format_date_time(t: &chrono::NaiveDateTime, fmt: &str) -> (r: String)
    requires
        fmt@ == cursor_date_time_format(),
    ensures
        r@ == date_time_text(*t, fmt@),
{
    t.format(fmt).to_string()
}

} // verus!
