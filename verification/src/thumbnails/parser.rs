//! Reading the size of a WebP thumbnail.

use vstd::prelude::*;

verus! {

/// The width and height that libwebp's decoder reports for `body`, or
/// `None` where it cannot decode `body` as a still WebP image.
pub uninterp spec fn webp_decoded_size(body: Seq<u8>) -> Option<(u32, u32)>;

/// `webp::Decoder::new(body).decode()` followed by `width()` and `height()`
/// of the decoded image. The result is named, not described: it depends on
/// the bytes alone.
#[verifier::external_body]
fn webp_decode_size(body: &[u8]) -> (r: Option<(u32, u32)>)
    ensures
        r == webp_decoded_size(body@),
{
    match webp::Decoder::new(body).decode() {
        Some(image) => Some((image.width(), image.height())),
        None => None,
    }
}

/// Size of a thumbnail image in pixels.
#[derive(Clone, Copy, Debug, PartialEq, Eq, Structural)]
pub struct ThumbnailMetadata {
    pub width: u32,
    pub height: u32,
}

/// Why the size of a thumbnail could not be read.
#[derive(Clone, Copy, Debug, PartialEq, Eq, Structural)]
pub enum ThumbnailParseError {
    Decode,
}

/// Reads thumbnails stored as WebP images.
#[derive(Clone, Copy)]
pub struct WebPImageParser;

impl WebPImageParser {
    /// The size of the WebP image in `body`.
    pub fn get_metadata(&self, body: &[u8]) -> (r: Result<ThumbnailMetadata, ThumbnailParseError>)
        ensures
            match webp_decoded_size(body@) {
                Some((width, height)) => r == Ok::<ThumbnailMetadata, ThumbnailParseError>(
                    ThumbnailMetadata { width, height },
                ),
                None => r == Err::<ThumbnailMetadata, ThumbnailParseError>(ThumbnailParseError::Decode),
            },
    {
        match webp_decode_size(body) {
            Some((width, height)) => Ok(ThumbnailMetadata { width, height }),
            None => Err(ThumbnailParseError::Decode),
        }
    }
}

} // verus!
