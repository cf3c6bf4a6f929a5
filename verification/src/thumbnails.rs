//! Thumbnail URLs and the thumbnail service of the storage crates.

use vstd::prelude::*;

pub mod parser;

use crate::application::thumbnails::{thumbnail_response, ThumbnailOutcome, ThumbnailResponse};
use crate::domain::entity::replicas::ThumbnailId;
use crate::text::{string_append, string_of, string_push};
use crate::uuid_text::{uuid_hyphenated, uuid_to_string};

verus! {

/// Builds thumbnail URLs as `{endpoint}/{id}`.
pub struct ThumbnailURLFactory {
    endpoint: &'static str,
}

impl ThumbnailURLFactory {
    pub closed spec fn endpoint(&self) -> Seq<char> {
        self.endpoint@
    }

    pub fn new(endpoint: &'static str) -> (f: Self)
        ensures
            f.endpoint() == endpoint@,
    {
        ThumbnailURLFactory { endpoint }
    }

    /// The URL of a thumbnail.
    pub fn get(&self, id: ThumbnailId) -> (u: String)
        ensures
            u@ == self.endpoint() + seq!['/'] + uuid_hyphenated(id.0),
    {
        let mut u = string_of(self.endpoint);
        string_push(&mut u, '/');
        let id_text = uuid_to_string(id.0);
        string_append(&mut u, id_text.as_str());
        u
    }
}

/// Answers thumbnail requests with the thumbnails that the media service
/// finds.
pub struct ThumbnailsService<MediaService> {
    media_service: MediaService,
}

impl<MediaService> ThumbnailsService<MediaService> {
    pub fn new(media_service: MediaService) -> (s: Self)
        ensures
            s.media_service() == media_service,
    {
        ThumbnailsService { media_service }
    }

    pub closed spec fn media_service(&self) -> MediaService {
        self.media_service
    }

    /// The service that looks thumbnails up.
    pub fn service(&self) -> (s: &MediaService)
        ensures
            *s == self.media_service(),
    {
        &self.media_service
    }

    /// The answer for the outcome of a lookup.
    pub fn show(&self, outcome: ThumbnailOutcome) -> (r: ThumbnailResponse)
        ensures
            outcome matches ThumbnailOutcome::Found(body) ==> r.status == 200 && r.content_type@ == "image/webp"@ && r.body@ == body@,
            outcome is NotFound ==> r.status == 404 && r.content_type@ == "text/plain; charset=utf-8"@ && r.body@ == vstd::utf8::encode_utf8("Not Found\n"@),
            outcome is Failed ==> r.status == 500 && r.content_type@ == "text/plain; charset=utf-8"@ && r.body@ == vstd::utf8::encode_utf8("Internal Server Error\n"@),
    {
        thumbnail_response(outcome)
    }
}

} // verus!
