//! Thumbnail URLs and the answers of the thumbnail endpoint.

use vstd::prelude::*;

use crate::domain::entity::replicas::ReplicaId;
use crate::text::{bytes_of, string_append, string_of};
use crate::uuid_text::{uuid_hyphenated, uuid_to_string};

verus! {

/// Builds the URL of a replica's thumbnail under an endpoint prefix.
pub struct ThumbnailURLFactory {
    endpoint: String,
}

impl ThumbnailURLFactory {
    pub closed spec fn endpoint(&self) -> Seq<char> {
        self.endpoint@
    }

    pub fn new(endpoint: String) -> (f: Self)
        ensures
            f.endpoint() == endpoint@,
    {
        ThumbnailURLFactory { endpoint }
    }

    /// The endpoint followed by the replica id.
    pub fn url(&self, id: &ReplicaId) -> (u: String)
        ensures
            u@ == self.endpoint() + uuid_hyphenated(id.0),
    {
        let mut u = string_of(self.endpoint.as_str());
        let id_text = uuid_to_string(id.0);
        string_append(&mut u, id_text.as_str());
        u
    }
}

/// An HTTP answer of the thumbnail endpoint.
pub struct ThumbnailResponse {
    pub status: u16,
    pub content_type: &'static str,
    pub body: Vec<u8>,
}

/// The thumbnail of a replica, or why there is none.
pub enum ThumbnailOutcome {
    Found(Vec<u8>),
    NotFound,
    Failed,
}

/// The answer for a thumbnail lookup: the WebP image with status 200, a
/// plain-text "Not Found" with 404, or a plain-text "Internal Server Error"
/// with 500.
pub fn thumbnail_response(outcome: ThumbnailOutcome) -> (r: ThumbnailResponse)
    ensures
        outcome matches ThumbnailOutcome::Found(body) ==> r.status == 200 && r.content_type@ == "image/webp"@ && r.body@ == body@,
        outcome is NotFound ==> r.status == 404 && r.content_type@ == "text/plain; charset=utf-8"@ && r.body@ == vstd::utf8::encode_utf8("Not Found\n"@),
        outcome is Failed ==> r.status == 500 && r.content_type@ == "text/plain; charset=utf-8"@ && r.body@ == vstd::utf8::encode_utf8("Internal Server Error\n"@),
{
    match outcome {
        ThumbnailOutcome::Found(body) => ThumbnailResponse { status: 200, content_type: "image/webp", body },
        ThumbnailOutcome::NotFound => ThumbnailResponse {
            status: 404,
            content_type: "text/plain; charset=utf-8",
            body: bytes_of("Not Found\n"),
        },
        ThumbnailOutcome::Failed => ThumbnailResponse {
            status: 500,
            content_type: "text/plain; charset=utf-8",
            body: bytes_of("Internal Server Error\n"),
        },
    }
}

} // verus!

verus! {

/// Why a replica's thumbnail cannot be served.
#[derive(Debug, PartialEq, Eq)]
pub enum ThumbnailError {
    NoThumbnailAvailable,
}

/// Serves the thumbnails of replicas through the media service.
pub struct ThumbnailsHandler<MediaService> {
    media_service: MediaService,
}

impl<MediaService> ThumbnailsHandler<MediaService> {
    pub fn new(media_service: MediaService) -> (h: Self)
        ensures
            h.media_service() == media_service,
    {
        ThumbnailsHandler { media_service }
    }

    pub closed spec fn media_service(&self) -> MediaService {
        self.media_service
    }

    /// The service that looks replicas up.
    pub fn service(&self) -> (s: &MediaService)
        ensures
            *s == self.media_service(),
    {
        &self.media_service
    }

    /// The thumbnail of a replica that was found, if it has one.
    pub fn thumbnail(thumbnail: Option<Vec<u8>>) -> (r: Result<Vec<u8>, ThumbnailError>)
        ensures
            thumbnail matches Some(t) ==> r == Ok::<Vec<u8>, ThumbnailError>(t),
            thumbnail is None ==> r == Err::<Vec<u8>, ThumbnailError>(ThumbnailError::NoThumbnailAvailable),
    {
        match thumbnail {
            Some(t) => Ok(t),
            None => Err(ThumbnailError::NoThumbnailAvailable),
        }
    }
}

} // verus!
