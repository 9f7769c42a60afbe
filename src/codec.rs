//! Image codec: MIME sniffing by byte signature, file extensions, and
//! decoding to / encoding from RGBA buffers through the `image` crate.
use vstd::prelude::*;
use crate::pixels::valid_buffer;
use crate::text::str_eq;

verus! {

/// The image formats that can be decoded.
#[derive(Clone, Copy, Debug, PartialEq, Eq, Structural)]
pub enum ImageKind {
    Png,
    Jpeg,
    Gif,
    WebP,
    Bmp,
}

/// Why decoding or encoding failed.
#[derive(Clone, Debug, PartialEq, Eq)]
pub enum CodecError {
    UnsupportedMime(String),
    Decode(String),
    Encode(String),
    InvalidBuffer,
}

pub open spec fn png_signature() -> Seq<u8> {
    seq![0x89u8, 0x50u8, 0x4Eu8, 0x47u8, 0x0Du8, 0x0Au8, 0x1Au8, 0x0Au8]
}

pub open spec fn jpeg_signature() -> Seq<u8> {
    seq![0xFFu8, 0xD8u8, 0xFFu8]
}

/// `GIF87a`.
pub open spec fn gif87_signature() -> Seq<u8> {
    seq![0x47u8, 0x49u8, 0x46u8, 0x38u8, 0x37u8, 0x61u8]
}

/// `GIF89a`.
pub open spec fn gif89_signature() -> Seq<u8> {
    seq![0x47u8, 0x49u8, 0x46u8, 0x38u8, 0x39u8, 0x61u8]
}

/// `RIFF`.
pub open spec fn riff_tag() -> Seq<u8> {
    seq![0x52u8, 0x49u8, 0x46u8, 0x46u8]
}

/// `WEBP`.
pub open spec fn webp_tag() -> Seq<u8> {
    seq![0x57u8, 0x45u8, 0x42u8, 0x50u8]
}

/// `BM`.
pub open spec fn bmp_signature() -> Seq<u8> {
    seq![0x42u8, 0x4Du8]
}

pub open spec fn bytes_start_with(b: Seq<u8>, p: Seq<u8>) -> bool {
    p.len() <= b.len() && b.subrange(0, p.len() as int) == p
}

/// The MIME type that the leading bytes announce, tried in this order:
/// PNG, JPEG, GIF (87a or 89a), WEBP (RIFF container), BMP.
pub open spec fn sniffed_mime(b: Seq<u8>) -> Option<Seq<char>> {
    if bytes_start_with(b, png_signature()) {
        Some("image/png"@)
    } else if bytes_start_with(b, jpeg_signature()) {
        Some("image/jpeg"@)
    } else if bytes_start_with(b, gif87_signature()) || bytes_start_with(b, gif89_signature()) {
        Some("image/gif"@)
    } else if b.len() >= 12 && b.subrange(0, 4) == riff_tag() && b.subrange(8, 12) == webp_tag() {
        Some("image/webp"@)
    } else if bytes_start_with(b, bmp_signature()) {
        Some("image/bmp"@)
    } else {
        None
    }
}

/// The format that a MIME type names, exactly as written.
pub open spec fn mime_kind(m: Seq<char>) -> Option<ImageKind> {
    if m == "image/png"@ {
        Some(ImageKind::Png)
    } else if m == "image/jpeg"@ || m == "image/jpg"@ {
        Some(ImageKind::Jpeg)
    } else if m == "image/gif"@ {
        Some(ImageKind::Gif)
    } else if m == "image/webp"@ {
        Some(ImageKind::WebP)
    } else if m == "image/bmp"@ {
        Some(ImageKind::Bmp)
    } else {
        None
    }
}

/// The file extension for a lowercase MIME type; `bin` for any other.
pub open spec fn mime_extension(m: Seq<char>) -> Seq<char> {
    if m == "image/jpeg"@ || m == "image/jpg"@ {
        "jpg"@
    } else if m == "image/png"@ {
        "png"@
    } else if m == "image/webp"@ {
        "webp"@
    } else if m == "image/gif"@ {
        "gif"@
    } else if m == "image/bmp"@ {
        "bmp"@
    } else if m == "image/svg+xml"@ {
        "svg"@
    } else if m == "image/avif"@ {
        "avif"@
    } else {
        "bin"@
    }
}

/// What `str::to_lowercase` returns for a string.
pub uninterp spec fn lowercase_of(s: Seq<char>) -> Seq<char>;

/// The RGBA pixels, width and height that decoding the bytes in a format
/// yields, or `None` where the decoder rejects them.
pub uninterp spec fn decoded_rgba(bytes: Seq<u8>, kind: ImageKind) -> Option<(Seq<u8>, u32, u32)>;

/// The PNG file that encoding an RGBA buffer of the given size yields, or
/// `None` where the encoder rejects it.
pub uninterp spec fn png_encoding(pixels: Seq<u8>, width: u32, height: u32) -> Option<Seq<u8>>;

/// Relies on str::to_lowercase: the lowercase form depends on the text alone.
#[verifier::external_body]
pub(crate) fn to_lowercase(s: &str) -> (r: String)
    ensures
        r@ == lowercase_of(s@),
{
    s.to_lowercase()
}

/// Relies on image::load_from_memory_with_format and DynamicImage::to_rgba8:
/// decoding is a function of the bytes and the format.
#[verifier::external_body]
fn load_rgba(bytes: &[u8], kind: ImageKind) -> (r: Result<(Vec<u8>, u32, u32), String>)
    ensures
        r is Ok <==> decoded_rgba(bytes@, kind) is Some,
        r matches Ok(v) ==> decoded_rgba(bytes@, kind) == Some((v.0@, v.1, v.2)),
        r matches Ok(v) ==> valid_buffer(v.0@.len() as int, v.1 as int, v.2 as int),
{
    let format = match kind {
        ImageKind::Png => image::ImageFormat::Png,
        ImageKind::Jpeg => image::ImageFormat::Jpeg,
        ImageKind::Gif => image::ImageFormat::Gif,
        ImageKind::WebP => image::ImageFormat::WebP,
        ImageKind::Bmp => image::ImageFormat::Bmp,
    };
    let rgba = image::load_from_memory_with_format(bytes, format).map_err(|e| e.to_string())?.to_rgba8();
    let (w, h) = rgba.dimensions();
    Ok((rgba.into_raw(), w, h))
}

/// Relies on image::RgbaImage::from_raw and DynamicImage::write_to with the
/// PNG format: the file is a function of the pixels and the dimensions.
#[verifier::external_body]
fn write_png(pixels: &[u8], width: u32, height: u32) -> (r: Result<Vec<u8>, String>)
    requires
        valid_buffer(pixels@.len() as int, width as int, height as int),
    ensures
        r is Ok <==> png_encoding(pixels@, width, height) is Some,
        r matches Ok(v) ==> png_encoding(pixels@, width, height) == Some(v@),
{
    let rgba = image::RgbaImage::from_raw(width, height, pixels.to_vec()).ok_or_else(|| String::from("invalid rgba buffer"))?;
    let mut out = std::io::Cursor::new(Vec::new());
    image::DynamicImage::ImageRgba8(rgba).write_to(&mut out, image::ImageFormat::Png).map_err(|e| e.to_string())?;
    Ok(out.into_inner())
}

fn bytes_have_prefix(b: &[u8], p: &[u8]) -> (r: bool)
    ensures
        r == bytes_start_with(b@, p@),
{
    if p.len() > b.len() {
        return false;
    }
    let mut i: usize = 0;
    while i < p.len()
        invariant
            p@.len() <= b@.len(),
            i <= p@.len(),
            forall|j: int| 0 <= j < i ==> b@[j] == p@[j],
        decreases p@.len() - i,
    {
        if b[i] != p[i] {
            return false;
        }
        i = i + 1;
    }
    assert(b@.subrange(0, p@.len() as int) =~= p@);
    true
}

/// The MIME type that the bytes' signature announces, if any.
pub fn detect_mime_type(bytes: &[u8]) -> (r: Option<&'static str>)
    ensures
        r is Some <==> sniffed_mime(bytes@) is Some,
        r matches Some(m) ==> sniffed_mime(bytes@) == Some(m@),
{
    let png: [u8; 8] = [0x89, 0x50, 0x4E, 0x47, 0x0D, 0x0A, 0x1A, 0x0A];
    let jpeg: [u8; 3] = [0xFF, 0xD8, 0xFF];
    let gif87: [u8; 6] = [0x47, 0x49, 0x46, 0x38, 0x37, 0x61];
    let gif89: [u8; 6] = [0x47, 0x49, 0x46, 0x38, 0x39, 0x61];
    let bmp: [u8; 2] = [0x42, 0x4D];
    assert(png@ =~= png_signature());
    assert(jpeg@ =~= jpeg_signature());
    assert(gif87@ =~= gif87_signature());
    assert(gif89@ =~= gif89_signature());
    assert(bmp@ =~= bmp_signature());
    if bytes_have_prefix(bytes, png.as_slice()) {
        return Some("image/png");
    }
    if bytes_have_prefix(bytes, jpeg.as_slice()) {
        return Some("image/jpeg");
    }
    if bytes_have_prefix(bytes, gif87.as_slice()) || bytes_have_prefix(bytes, gif89.as_slice()) {
        return Some("image/gif");
    }
    if bytes.len() >= 12 && bytes[0] == 0x52 && bytes[1] == 0x49 && bytes[2] == 0x46 && bytes[3] == 0x46
        && bytes[8] == 0x57 && bytes[9] == 0x45 && bytes[10] == 0x42 && bytes[11] == 0x50 {
        assert(bytes@.subrange(0, 4) =~= riff_tag());
        assert(bytes@.subrange(8, 12) =~= webp_tag());
        return Some("image/webp");
    }
    if bytes.len() >= 12 {
        assert(bytes@.subrange(0, 4) == riff_tag() ==> bytes@[0] == 0x52 && bytes@[1] == 0x49 && bytes@[2]
            == 0x46 && bytes@[3] == 0x46);
        assert(bytes@.subrange(8, 12) == webp_tag() ==> bytes@[8] == 0x57 && bytes@[9] == 0x45
            && bytes@[10] == 0x42 && bytes@[11] == 0x50);
    }
    if bytes_have_prefix(bytes, bmp.as_slice()) {
        return Some("image/bmp");
    }
    None
}

/// The format that a MIME type names; other types are unsupported.
pub fn mime_to_format(mime_type: &str) -> (r: Result<ImageKind, CodecError>)
    ensures
        mime_kind(mime_type@) matches Some(k) ==> r == Ok::<ImageKind, CodecError>(k),
        mime_kind(mime_type@) is None ==> (r matches Err(CodecError::UnsupportedMime(m)) && m@ == mime_type@),
{
    if str_eq(mime_type, "image/png") {
        Ok(ImageKind::Png)
    } else if str_eq(mime_type, "image/jpeg") || str_eq(mime_type, "image/jpg") {
        Ok(ImageKind::Jpeg)
    } else if str_eq(mime_type, "image/gif") {
        Ok(ImageKind::Gif)
    } else if str_eq(mime_type, "image/webp") {
        Ok(ImageKind::WebP)
    } else if str_eq(mime_type, "image/bmp") {
        Ok(ImageKind::Bmp)
    } else {
        Err(CodecError::UnsupportedMime(String::from_str(mime_type)))
    }
}

/// The extension for a MIME type that is already lowercase.
pub fn extension_for_lowercase_mime(m: &str) -> (r: &'static str)
    ensures
        r@ == mime_extension(m@),
{
    if str_eq(m, "image/jpeg") || str_eq(m, "image/jpg") {
        "jpg"
    } else if str_eq(m, "image/png") {
        "png"
    } else if str_eq(m, "image/webp") {
        "webp"
    } else if str_eq(m, "image/gif") {
        "gif"
    } else if str_eq(m, "image/bmp") {
        "bmp"
    } else if str_eq(m, "image/svg+xml") {
        "svg"
    } else if str_eq(m, "image/avif") {
        "avif"
    } else {
        "bin"
    }
}

/// The file extension for a MIME type, compared without regard to case.
pub fn get_extension_from_mime_type(mime_type: &str) -> (r: &'static str)
    ensures
        r@ == mime_extension(lowercase_of(mime_type@)),
{
    let lower = to_lowercase(mime_type);
    extension_for_lowercase_mime(lower.as_str())
}

/// Decodes image bytes of the given MIME type to an RGBA buffer with its
/// width and height.
pub fn decode_image(bytes: &[u8], mime_type: &str) -> (r: Result<(Vec<u8>, u32, u32), CodecError>)
    ensures
        mime_kind(mime_type@) is None ==> (r matches Err(CodecError::UnsupportedMime(m)) && m@ == mime_type@),
        mime_kind(mime_type@) matches Some(k) ==> {
            &&& (r is Ok <==> decoded_rgba(bytes@, k) is Some)
            &&& (r matches Ok(v) ==> decoded_rgba(bytes@, k) == Some((v.0@, v.1, v.2)))
            &&& (r matches Ok(v) ==> valid_buffer(v.0@.len() as int, v.1 as int, v.2 as int))
            &&& (r is Err ==> r matches Err(CodecError::Decode(_)))
        },
{
    let kind = match mime_to_format(mime_type) {
        Ok(k) => k,
        Err(e) => return Err(e),
    };
    match load_rgba(bytes, kind) {
        Ok(v) => Ok(v),
        Err(m) => Err(CodecError::Decode(m)),
    }
}

/// The width and height of an encoded image.
pub fn get_dimensions(bytes: &[u8], mime_type: &str) -> (r: Result<(u32, u32), CodecError>)
    ensures
        mime_kind(mime_type@) is None ==> (r matches Err(CodecError::UnsupportedMime(m)) && m@ == mime_type@),
        mime_kind(mime_type@) matches Some(k) ==> {
            &&& (r is Ok <==> decoded_rgba(bytes@, k) is Some)
            &&& (r matches Ok(d) ==> {
                let (_, w, h) = decoded_rgba(bytes@, k)->0;
                d == (w, h)
            })
        },
{
    match decode_image(bytes, mime_type) {
        Ok((_, w, h)) => Ok((w, h)),
        Err(e) => Err(e),
    }
}

/// Encodes an RGBA buffer as PNG; a buffer whose length is not
/// `width * height * 4` is refused.
pub fn encode_png(pixels: &[u8], width: u32, height: u32) -> (r: Result<Vec<u8>, CodecError>)
    ensures
        !valid_buffer(pixels@.len() as int, width as int, height as int) ==> r == Err::<Vec<u8>, CodecError>(
            CodecError::InvalidBuffer,
        ),
        valid_buffer(pixels@.len() as int, width as int, height as int) ==> {
            &&& (r is Ok <==> png_encoding(pixels@, width, height) is Some)
            &&& (r matches Ok(v) ==> png_encoding(pixels@, width, height) == Some(v@))
        },
{
    if !crate::pixels::buffer_matches(pixels.len(), width, height) {
        return Err(CodecError::InvalidBuffer);
    }
    match write_png(pixels, width, height) {
        Ok(v) => Ok(v),
        Err(m) => Err(CodecError::Encode(m)),
    }
}

/// The character of a six-bit value in the standard base64 alphabet.
pub open spec fn base64_char(v: int) -> char {
    if v < 26 {
        (('A' as u8) + (v as u8)) as char
    } else if v < 52 {
        (('a' as u8) + ((v - 26) as u8)) as char
    } else if v < 62 {
        (('0' as u8) + ((v - 52) as u8)) as char
    } else if v == 62 {
        '+'
    } else {
        '/'
    }
}

/// Standard base64 with padding: every three bytes become four
/// characters; a last group of one or two bytes is padded with `=`.
pub open spec fn base64_standard(b: Seq<u8>) -> Seq<char>
    decreases b.len(),
{
    if b.len() == 0 {
        Seq::empty()
    } else {
        let b0 = b[0] as int;
        let b1 = if b.len() > 1 { b[1] as int } else { 0 };
        let b2 = if b.len() > 2 { b[2] as int } else { 0 };
        if b.len() == 1 {
            seq![base64_char(b0 / 4), base64_char((b0 % 4) * 16), '=', '=']
        } else if b.len() == 2 {
            seq![base64_char(b0 / 4), base64_char((b0 % 4) * 16 + b1 / 16), base64_char((b1 % 16) * 4), '=']
        } else {
            seq![
                base64_char(b0 / 4),
                base64_char((b0 % 4) * 16 + b1 / 16),
                base64_char((b1 % 16) * 4 + b2 / 64),
                base64_char(b2 % 64),
            ] + base64_standard(b.skip(3))
        }
    }
}

/// Relies on base64's STANDARD engine: the RFC 4648 alphabet with padding.
#[verifier::external_body]
fn base64_encode(data: &[u8]) -> (r: String)
    ensures
        r@ == base64_standard(data@),
{
    <base64::engine::GeneralPurpose as base64::Engine>::encode(&base64::engine::general_purpose::STANDARD, data)
}

/// The encoded image as base64 text, for answering with the image inline
/// when it cannot be stored.
pub fn inline_image_data(encoded: &[u8]) -> (r: String)
    ensures
        r@ == base64_standard(encoded@),
{
    base64_encode(encoded)
}

} // verus!
