//! Cursors of the media listing.

use vstd::prelude::*;

use chrono::NaiveDateTime;

use crate::application::graphql::tags::{lemma_cursor_plain, CursorError};
use crate::base64_text::{base64_decode, base64_decoded, base64_encode, base64_encoding};
use crate::domain::entity::datetime::{
    cursor_date_time_format, date_time_parses, date_time_text, format_date_time, parse_date_time, read_date_time,
    ExNaiveDateTime,
};
use crate::domain::entity::media::MediumId;
use crate::text::{bytes_of, first_occurrence, split_once_char, string_append, string_from_utf8, string_push};
use crate::uuid_text::{uuid_hyphenated, uuid_parse, uuid_parsed, uuid_to_string};

verus! {

/// Position of a medium in a listing ordered by creation time, then id.
pub struct MediumCursor {
    created_at: NaiveDateTime,
    id: u128,
}

/// The text of a medium cursor whose creation time is written `time`: the
/// base64 of the UTF-8 of the time, a NUL character and the hyphenated id.
pub open spec fn medium_cursor_text(time: Seq<char>, id: u128) -> Seq<char> {
    base64_encoding(vstd::utf8::encode_utf8(time + seq!['\0'] + uuid_hyphenated(id)))
}

/// What a medium cursor text is read as: the failure, or the creation time
/// that chrono reads from the part before the NUL character and the medium
/// id after it.
pub open spec fn medium_cursor_of(text: Seq<char>) -> Result<(NaiveDateTime, u128), CursorError> {
    match base64_decoded(text) {
        None => Err(CursorError::Base64),
        Some(bytes) => if !vstd::utf8::valid_utf8(bytes) {
            Err(CursorError::Utf8)
        } else {
            let t = vstd::utf8::decode_utf8(bytes);
            match first_occurrence(t, '\0') {
                None => Err(CursorError::InvalidCursor),
                Some(k) => if !date_time_parses(t.take(k), cursor_date_time_format()) {
                    Err(CursorError::DateTime)
                } else {
                    match uuid_parsed(t.skip(k + 1)) {
                        None => Err(CursorError::Uuid),
                        Some(v) => Ok((read_date_time(t.take(k), cursor_date_time_format()), v)),
                    }
                },
            }
        },
    }
}

impl MediumCursor {
    pub closed spec fn created_at(&self) -> NaiveDateTime {
        self.created_at
    }

    pub closed spec fn id(&self) -> u128 {
        self.id
    }

    pub fn new(created_at: NaiveDateTime, id: u128) -> (c: Self)
        ensures
            c.created_at() == created_at,
            c.id() == id,
    {
        MediumCursor { created_at, id }
    }

    /// The creation time and the medium id of the cursor.
    pub fn into_inner(self) -> (r: (NaiveDateTime, MediumId))
        ensures
            r.0 == self.created_at(),
            r.1 == MediumId(self.id()),
    {
        (self.created_at, MediumId(self.id))
    }

    /// The text of the cursor. The creation time is written by chrono in
    /// the cursor format.
    pub fn encode_cursor(&self) -> (text: String)
        ensures
            text@ == medium_cursor_text(date_time_text(self.created_at(), cursor_date_time_format()), self.id()),
    {
        proof {
            reveal_strlit("%Y-%m-%dT%H:%M:%S%.f");
        }
        let mut s = format_date_time(&self.created_at, "%Y-%m-%dT%H:%M:%S%.f");
        let ghost time = s@;
        string_push(&mut s, '\0');
        let id_text = uuid_to_string(self.id);
        string_append(&mut s, id_text.as_str());
        assert(s@ == time + seq!['\0'] + uuid_hyphenated(self.id));
        let bytes = bytes_of(s.as_str());
        let text = base64_encode(bytes.as_slice());
        assert(text@ == medium_cursor_text(time, self.id()));
        text
    }

    /// Reads a cursor text. A text written for a time without NUL characters
    /// that chrono reads back yields the medium id and the time read.
    pub fn decode_cursor(text: &str) -> (r: Result<Self, CursorError>)
        ensures
            match medium_cursor_of(text@) {
                Ok((created_at, id)) => r is Ok && r->Ok_0.created_at() == created_at && r->Ok_0.id() == id,
                Err(e) => r == Err::<Self, CursorError>(e),
            },
            forall|time: Seq<char>, id: u128|
                #[trigger] medium_cursor_text(time, id) == text@ && !time.contains('\0')
                    && date_time_parses(time, cursor_date_time_format()) ==> (r is Ok && r->Ok_0.id() == id
                    && r->Ok_0.created_at() == read_date_time(time, cursor_date_time_format())),
    {
        let ghost t = text@;
        match base64_decode(text) {
            None => {
                proof {
                    assert forall|time: Seq<char>, id: u128|
                        #[trigger] medium_cursor_text(time, id) == t && !time.contains('\0') implies false by {
                        assert(base64_encoding(vstd::utf8::encode_utf8(time + seq!['\0'] + uuid_hyphenated(id))) == t);
                    }
                }
                Err(CursorError::Base64)
            },
            Some(bytes) => {
                match string_from_utf8(bytes) {
                    None => {
                        proof {
                            assert forall|time: Seq<char>, id: u128|
                                #[trigger] medium_cursor_text(time, id) == t && !time.contains('\0') implies false by {
                                lemma_cursor_plain(time, id);
                            }
                        }
                        Err(CursorError::Utf8)
                    },
                    Some(s) => {
                        let ghost d = s@;
                        proof {
                            assert forall|time: Seq<char>, id: u128|
                                #[trigger] medium_cursor_text(time, id) == t && !time.contains('\0') implies d == time + seq!['\0'] + uuid_hyphenated(id) && first_occurrence(d, '\0') == Some(time.len() as int) by {
                                lemma_cursor_plain(time, id);
                            }
                        }
                        match split_once_char(s.as_str(), '\0') {
                            None => Err(CursorError::InvalidCursor),
                            Some((time_text, rest)) => {
                                proof {
                                    assert forall|time: Seq<char>, id: u128|
                                        #[trigger] medium_cursor_text(time, id) == t && !time.contains('\0') implies rest@ == uuid_hyphenated(id) && time_text@ == time by {
                                        lemma_cursor_plain(time, id);
                                    }
                                    reveal_strlit("%Y-%m-%dT%H:%M:%S%.f");
                                }
                                match parse_date_time(time_text.as_str(), "%Y-%m-%dT%H:%M:%S%.f") {
                                    None => Err(CursorError::DateTime),
                                    Some(created_at) => match uuid_parse(rest.as_str()) {
                                        None => Err(CursorError::Uuid),
                                        Some(id) => Ok(MediumCursor { created_at, id }),
                                    },
                                }
                            },
                        }
                    },
                }
            },
        }
    }
}

} // verus!
