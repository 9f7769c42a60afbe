//! Metadata records of cached artifacts, the audit records of generated
//! and edited images, the tool requests and responses, and the small
//! decisions of the generation and description tools.
use vstd::prelude::*;
use crate::keyer::{compute_hash, key_of};
use crate::text::{decimal, decimal_string, eq_ascii_lower, matches_ascii_lower, str_eq, trim, trim_ws};
use crate::tools::ToolError;

verus! {

/// Metadata of a fetched image, stored at `images/<hash>/meta.json`.
#[derive(Clone, Debug)]
pub struct ImageCacheMetadata {
    pub original_url: String,
    pub cached_image_key: String,
    pub cached_image_url: String,
    pub mime_type: String,
    pub name: String,
    pub title: String,
    pub description: String,
    pub created_at: String,
    pub width: Option<u32>,
    pub height: Option<u32>,
    pub size: Option<u64>,
}

/// Metadata of a cropped or rotated image, stored at `processed/<hash>/meta.json`.
#[derive(Clone, Debug)]
pub struct ProcessedImageCacheMetadata {
    pub cache_key_input: String,
    pub cached_image_key: String,
    pub cached_image_url: String,
    pub mime_type: String,
    pub created_at: String,
}

/// Metadata of an OCR result, stored at `ocr/<hash>/meta.json`.
#[derive(Clone, Debug)]
pub struct OcrCacheMetadata {
    pub cache_key_input: String,
    pub cached_image_key: String,
    pub cached_image_url: String,
    pub mime_type: String,
    pub cached_text_key: String,
    pub cached_text_url: String,
    pub created_at: String,
}

/// Metadata of a generated image.
#[derive(Clone, Debug)]
pub struct GeneratedImageCacheMetadata {
    pub cache_key_input: String,
    pub cached_image_key: String,
    pub cached_image_url: String,
    pub mime_type: String,
    pub created_at: String,
}

/// Metadata of an edited image.
#[derive(Clone, Debug)]
pub struct EditedImageCacheMetadata {
    pub cache_key_input: String,
    pub cached_image_key: String,
    pub cached_image_url: String,
    pub mime_type: String,
    pub created_at: String,
}

/// Audit record of a generated or edited image.
#[derive(Clone, Debug)]
pub struct AiImageRecord {
    pub image_url: String,
    pub image_type: String,
    pub prompt: String,
    pub negative_prompt: Option<String>,
    pub aspect_ratio: Option<String>,
    pub resolution: Option<String>,
    pub steps: Option<u32>,
    pub source_image_url: Option<String>,
    pub created_at: String,
}

/// The JSON text a tool answers with.
#[derive(Clone, Debug)]
pub struct ToolResponse {
    pub url: String,
    pub name: String,
    pub mime_type: String,
    pub text: String,
}

/// The request of the generation tool.
#[derive(Clone, Debug)]
pub struct GenerateImageRequest {
    pub prompt: String,
    pub negative_prompt: Option<String>,
    pub aspect_ratio: Option<String>,
    pub resolution: Option<String>,
    pub steps: Option<u32>,
}

/// The request of the edit tool.
#[derive(Clone, Debug)]
pub struct EditImageRequest {
    pub image_url: String,
    pub prompt: String,
    pub size: Option<String>,
    pub steps: Option<u32>,
}

/// The request of the image information tool.
#[derive(Clone, Debug)]
pub struct GetImageInfoRequest {
    pub url: String,
}

/// The request of the history listing tool.
#[derive(Clone, Debug)]
pub struct ListAiImagesRequest {
    pub limit: Option<u32>,
    pub image_type: Option<String>,
}

/// The request of the object location tool.
#[derive(Clone, Debug)]
pub struct LocateObjectRequest {
    pub image_url: String,
    pub object_name: String,
}

/// The request of the OCR tool: a batch of URLs.
#[derive(Clone, Debug)]
pub struct OcrExtractRequest {
    pub urls: Vec<String>,
}

/// What is sent to the remote generation service.
#[derive(Clone, Debug)]
pub struct GenerateImageOptions {
    pub prompt: String,
    pub negative_prompt: Option<String>,
    pub size: Option<String>,
    pub steps: Option<u32>,
}

/// What the remote generation service gave back.
#[derive(Clone, Debug)]
pub struct GenerateImageResult {
    pub image_url: String,
    pub task_id: String,
}

/// The longest side of a generated image, in pixels, per resolution name
/// (`1k`, `2k`, `4k`, compared without regard to ASCII case).
pub open spec fn resolution_base(r: Seq<char>) -> Option<int> {
    if eq_ascii_lower(r, "1k"@) {
        Some(1024)
    } else if eq_ascii_lower(r, "2k"@) || eq_ascii_lower(r, "4k"@) {
        Some(2048)
    } else {
        None
    }
}

/// The width and height parts of an aspect ratio name.
pub open spec fn ratio_parts(a: Seq<char>) -> Option<(int, int)> {
    if a == "1:1"@ {
        Some((1, 1))
    } else if a == "16:9"@ {
        Some((16, 9))
    } else if a == "9:16"@ {
        Some((9, 16))
    } else if a == "4:3"@ {
        Some((4, 3))
    } else if a == "3:4"@ {
        Some((3, 4))
    } else if a == "3:2"@ {
        Some((3, 2))
    } else if a == "2:3"@ {
        Some((2, 3))
    } else {
        None
    }
}

/// `part * base / longest`, rounded to the nearest integer, halves up.
pub open spec fn scaled_side(part: int, base: int, longest: int) -> int {
    (2 * part * base + longest) / (2 * longest)
}

pub open spec fn opt_text(o: Option<String>, default: Seq<char>) -> Seq<char> {
    match o {
        Some(s) => s@,
        None => default,
    }
}

/// The pixel size of a generation: the longer side is the resolution's
/// base, the other follows the aspect ratio. Both names are trimmed; the
/// defaults are `1:1` and `1k`. The resolution is checked first.
pub open spec fn generation_size(aspect: Option<String>, resolution: Option<String>) -> Option<(int, int)> {
    let a = trim_ws(opt_text(aspect, "1:1"@));
    let r = trim_ws(opt_text(resolution, "1k"@));
    match resolution_base(r) {
        None => None,
        Some(base) => match ratio_parts(a) {
            None => None,
            Some(p) => {
                let longest = if p.0 >= p.1 { p.0 } else { p.1 };
                Some((scaled_side(p.0, base, longest), scaled_side(p.1, base, longest)))
            },
        },
    }
}

fn ratio_of(a: &str) -> (r: Option<(u64, u64)>)
    ensures
        r is Some <==> ratio_parts(a@) is Some,
        r matches Some(p) ==> ratio_parts(a@) == Some((p.0 as int, p.1 as int)),
{
    if str_eq(a, "1:1") {
        Some((1, 1))
    } else if str_eq(a, "16:9") {
        Some((16, 9))
    } else if str_eq(a, "9:16") {
        Some((9, 16))
    } else if str_eq(a, "4:3") {
        Some((4, 3))
    } else if str_eq(a, "3:4") {
        Some((3, 4))
    } else if str_eq(a, "3:2") {
        Some((3, 2))
    } else if str_eq(a, "2:3") {
        Some((2, 3))
    } else {
        None
    }
}

/// The size of the image to generate, or which name was not understood.
pub fn generation_dimensions(request: &GenerateImageRequest) -> (r: Result<(u32, u32), ToolError>)
    ensures
        generation_size(request.aspect_ratio, request.resolution) is None <==> r is Err,
        r matches Err(e) ==> e is InvalidParams,
        r matches Ok(d) ==> generation_size(request.aspect_ratio, request.resolution) == Some(
            (d.0 as int, d.1 as int),
        ),
        r matches Ok(d) ==> d.0 <= 2048 && d.1 <= 2048,
{
    let aspect = match &request.aspect_ratio {
        Some(s) => trim(s.as_str()),
        None => trim("1:1"),
    };
    let resolution = match &request.resolution {
        Some(s) => trim(s.as_str()),
        None => trim("1k"),
    };
    let base: u64 = if matches_ascii_lower(resolution, "1k") {
        1024
    } else if matches_ascii_lower(resolution, "2k") || matches_ascii_lower(resolution, "4k") {
        2048
    } else {
        return Err(ToolError::InvalidParams(String::from_str("resolution must be 1k, 2k or 4k")));
    };
    let (rw, rh) = match ratio_of(aspect) {
        Some(p) => p,
        None => return Err(
            ToolError::InvalidParams(String::from_str("aspect_ratio must be 1:1, 16:9, 9:16, 4:3, 3:4, 3:2 or 2:3")),
        ),
    };
    let longest = if rw >= rh { rw } else { rh };
    let w = (2 * rw * base + longest) / (2 * longest);
    let h = (2 * rh * base + longest) / (2 * longest);
    proof {
        assert(w <= base) by (nonlinear_arith)
            requires
                w == (2 * rw * base + longest) / (2 * longest),
                rw <= longest,
                longest >= 1,
                base <= 2048,
        ;
        assert(h <= base) by (nonlinear_arith)
            requires
                h == (2 * rh * base + longest) / (2 * longest),
                rh <= longest,
                longest >= 1,
                base <= 2048,
        ;
    }
    Ok((w as u32, h as u32))
}

/// `<width>x<height>`, the size text the generation service takes.
pub fn size_text(width: u32, height: u32) -> (r: String)
    ensures
        r@ == decimal(width as nat) + "x"@ + decimal(height as nat),
{
    let mut s = decimal_string(width as u64);
    s.append("x");
    s.append(decimal_string(height as u64).as_str());
    s
}

/// `s` with every `:` replaced by `-`.
pub open spec fn colons_to_dashes(s: Seq<char>) -> Seq<char> {
    Seq::new(s.len(), |i: int| if s[i] == ':' { '-' } else { s[i] })
}

fn replace_colons(s: &str) -> (r: String)
    ensures
        r@ == colons_to_dashes(s@),
{
    let n = s.unicode_len();
    let mut out = String::new();
    let mut i: usize = 0;
    while i < n
        invariant
            n == s@.len(),
            i <= n,
            out@ == colons_to_dashes(s@).subrange(0, i as int),
        decreases n - i,
    {
        proof {
            reveal_strlit("-");
            assert("-"@ =~= seq!['-']);
        }
        if s.get_char(i) == ':' {
            out.append("-");
        } else {
            out.append(s.substring_char(i, i + 1));
        }
        assert(out@ =~= colons_to_dashes(s@).subrange(0, i + 1));
        i = i + 1;
    }
    assert(colons_to_dashes(s@).subrange(0, n as int) =~= colons_to_dashes(s@));
    out
}

/// `ai_images/<created_at with dashes for colons>_<key of "type:url:prompt">.json`.
pub open spec fn ai_record_key_of(r: AiImageRecord) -> Seq<char> {
    "ai_images/"@ + colons_to_dashes(r.created_at@) + "_"@ + key_of(
        r.image_type@ + ":"@ + r.image_url@ + ":"@ + r.prompt@,
    ) + ".json"@
}

/// The key under which an audit record is stored; names sort by time.
pub fn ai_record_key(record: &AiImageRecord) -> (r: String)
    ensures
        r@ == ai_record_key_of(*record),
{
    let created = replace_colons(record.created_at.as_str());
    let mut source = record.image_type.clone();
    source.append(":");
    source.append(record.image_url.as_str());
    source.append(":");
    source.append(record.prompt.as_str());
    let hash = compute_hash(source.as_str());
    let mut key = String::from_str("ai_images/");
    key.append(created.as_str());
    key.append("_");
    key.append(hash.as_str());
    key.append(".json");
    key
}

} // verus!
