use image_edit_rmcp::codec::{
    decode_image, detect_mime_type, encode_png, extension_for_lowercase_mime, get_dimensions,
    get_extension_from_mime_type, inline_image_data, mime_to_format, CodecError, ImageKind,
};

#[test]
fn sniffs_signatures() {
    assert_eq!(detect_mime_type(&[0x89, 0x50, 0x4E, 0x47, 0x0D, 0x0A, 0x1A, 0x0A, 0]), Some("image/png"));
    assert_eq!(detect_mime_type(&[0xFF, 0xD8, 0xFF, 0xE0]), Some("image/jpeg"));
    assert_eq!(detect_mime_type(b"GIF87a...."), Some("image/gif"));
    assert_eq!(detect_mime_type(b"GIF89a"), Some("image/gif"));
    assert_eq!(detect_mime_type(b"RIFF\x00\x00\x00\x00WEBPVP8 "), Some("image/webp"));
    assert_eq!(detect_mime_type(b"BM\x00\x00"), Some("image/bmp"));
}

#[test]
fn sniffing_unknown_or_short_bytes() {
    assert_eq!(detect_mime_type(b""), None);
    assert_eq!(detect_mime_type(b"hello world!"), None);
    assert_eq!(detect_mime_type(&[0x89, 0x50, 0x4E]), None);
    assert_eq!(detect_mime_type(b"RIFF\x00\x00\x00\x00WAVE"), None);
    assert_eq!(detect_mime_type(b"RIFFWEBP"), None);
}

#[test]
fn extensions_from_mime_types() {
    assert_eq!(get_extension_from_mime_type("image/jpeg"), "jpg");
    assert_eq!(get_extension_from_mime_type("image/jpg"), "jpg");
    assert_eq!(get_extension_from_mime_type("IMAGE/PNG"), "png");
    assert_eq!(get_extension_from_mime_type("Image/WebP"), "webp");
    assert_eq!(get_extension_from_mime_type("image/gif"), "gif");
    assert_eq!(get_extension_from_mime_type("image/bmp"), "bmp");
    assert_eq!(get_extension_from_mime_type("image/svg+xml"), "svg");
    assert_eq!(get_extension_from_mime_type("image/avif"), "avif");
    assert_eq!(get_extension_from_mime_type("text/plain"), "bin");
    assert_eq!(extension_for_lowercase_mime("IMAGE/PNG"), "bin");
}

#[test]
fn formats_from_mime_types() {
    assert_eq!(mime_to_format("image/png"), Ok(ImageKind::Png));
    assert_eq!(mime_to_format("image/jpg"), Ok(ImageKind::Jpeg));
    assert_eq!(mime_to_format("image/webp"), Ok(ImageKind::WebP));
    assert_eq!(mime_to_format("image/tiff"), Err(CodecError::UnsupportedMime("image/tiff".to_string())));
    assert_eq!(mime_to_format("IMAGE/PNG"), Err(CodecError::UnsupportedMime("IMAGE/PNG".to_string())));
}

#[test]
fn png_round_trip() {
    let pixels: Vec<u8> = vec![255, 0, 0, 255, 0, 255, 0, 128, 0, 0, 255, 0, 9, 8, 7, 6, 1, 2, 3, 4, 5, 6, 7, 8];
    let png = encode_png(&pixels, 3, 2).unwrap();
    assert_eq!(detect_mime_type(&png), Some("image/png"));
    assert_ne!(png, pixels);
    let (decoded, w, h) = decode_image(&png, "image/png").unwrap();
    assert_eq!((w, h), (3, 2));
    assert_eq!(decoded, pixels);
    assert_eq!(get_dimensions(&png, "image/png"), Ok((3, 2)));
}

#[test]
fn encode_refuses_mismatched_buffer() {
    assert_eq!(encode_png(&[0, 0, 0], 1, 1), Err(CodecError::InvalidBuffer));
    assert_eq!(encode_png(&[0; 8], 1, 1), Err(CodecError::InvalidBuffer));
}

#[test]
fn decode_failures() {
    assert!(matches!(decode_image(b"not an image", "image/png"), Err(CodecError::Decode(_))));
    assert_eq!(
        decode_image(b"whatever", "text/plain"),
        Err(CodecError::UnsupportedMime("text/plain".to_string()))
    );
}

#[test]
fn inline_data_is_standard_base64() {
    assert_eq!(inline_image_data(b"Man"), "TWFu");
    assert_eq!(inline_image_data(b"Ma"), "TWE=");
    assert_eq!(inline_image_data(b"M"), "TQ==");
    assert_eq!(inline_image_data(b""), "");
    assert_eq!(inline_image_data(&[0xFF, 0xFE, 0x3E, 0x00]), "//4+AA==");
}

#[test]
fn encoder_refuses_empty_image() {
    assert!(matches!(encode_png(&[], 0, 0), Err(CodecError::Encode(_))));
    assert!(matches!(encode_png(&[], 3, 0), Err(CodecError::Encode(_))));
}
