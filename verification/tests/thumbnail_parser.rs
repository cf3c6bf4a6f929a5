use hoarder::thumbnails::parser::{ThumbnailMetadata, ThumbnailParseError, WebPImageParser};

fn webp_of(width: u32, height: u32) -> Vec<u8> {
    let pixels = vec![0x7fu8; (width * height * 3) as usize];
    let encoded = webp::Encoder::from_rgb(&pixels, width, height).encode_lossless();
    encoded.to_vec()
}

#[test]
fn get_metadata_reads_the_size() {
    let body = webp_of(3, 5);
    let actual = WebPImageParser.get_metadata(&body);
    assert_eq!(actual, Ok(ThumbnailMetadata { width: 3, height: 5 }));
}

#[test]
fn get_metadata_rejects_other_bytes() {
    let actual = WebPImageParser.get_metadata(b"not an image");
    assert_eq!(actual, Err(ThumbnailParseError::Decode));
}

#[test]
fn get_metadata_rejects_empty_body() {
    let actual = WebPImageParser.get_metadata(&[]);
    assert_eq!(actual, Err(ThumbnailParseError::Decode));
}
