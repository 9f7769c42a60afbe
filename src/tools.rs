//! Request validation and cache planning of the image tools: which
//! canonical string keys an operation, and where its artifacts live.
use vstd::prelude::*;
use crate::keyer::{compute_hash, key_of};
use crate::text::{decimal, decimal_string, str_eq, trim, trim_ws};

verus! {

/// A tool failure: bad input from the caller, or a failure on the server side.
#[derive(Clone, Debug, PartialEq, Eq)]
pub enum ToolError {
    InvalidParams(String),
    Internal(String),
}

/// The scheme and the serialization of a URL as parsed, or `None` where
/// the text is no valid absolute URL.
pub uninterp spec fn parsed_url(s: Seq<char>) -> Option<(Seq<char>, Seq<char>)>;

/// Relies on url::Url::parse, with Url::scheme and Url::as_str of the
/// result: parsing depends on the text alone.
#[verifier::external_body]
fn parse_url(s: &str) -> (r: Option<(String, String)>)
    ensures
        r is Some <==> parsed_url(s@) is Some,
        r matches Some(p) ==> parsed_url(s@) == Some((p.0@, p.1@)),
{
    match url::Url::parse(s) {
        Ok(u) => Some((u.scheme().to_string(), u.as_str().to_string())),
        Err(_) => None,
    }
}

/// The URL that a raw input stands for, if it is accepted: the input
/// trimmed, non-empty, parsed, with scheme `http` or `https`.
pub open spec fn checked_url(raw: Seq<char>) -> Option<Seq<char>> {
    let t = trim_ws(raw);
    if t.len() == 0 {
        None
    } else {
        match parsed_url(t) {
            None => None,
            Some(p) => if p.0 == "http"@ || p.0 == "https"@ {
                Some(p.1)
            } else {
                None
            },
        }
    }
}

/// Accepts a well-formed `http` or `https` URL and returns it normalized.
pub fn validate_http_url(raw: &str) -> (r: Result<String, ToolError>)
    ensures
        checked_url(raw@) is None <==> r is Err,
        r matches Ok(u) ==> checked_url(raw@) == Some(u@),
        r matches Err(e) ==> e is InvalidParams,
{
    let trimmed = trim(raw);
    if trimmed.unicode_len() == 0 {
        return Err(ToolError::InvalidParams(String::from_str("url must not be empty")));
    }
    let parsed = match parse_url(trimmed) {
        Some(p) => p,
        None => return Err(ToolError::InvalidParams(String::from_str("invalid URL"))),
    };
    if str_eq(parsed.0.as_str(), "http") || str_eq(parsed.0.as_str(), "https") {
        Ok(parsed.1)
    } else {
        Err(ToolError::InvalidParams(String::from_str("only http or https URLs are allowed")))
    }
}

/// Where the artifacts of one cached operation live.
#[derive(Clone, Debug)]
pub struct CachePlan {
    /// The canonical string the key is derived from.
    pub cache_key_input: String,
    pub hash: String,
    /// `<category>/<hash>`.
    pub prefix: String,
    /// `<prefix>/meta.json`.
    pub meta_key: String,
    /// The result object: `<prefix>/result.png`, `<prefix>/ocr.txt`, or,
    /// for a fetched image, the metadata key itself.
    pub result_key: String,
}

/// The plan for a canonical string under a category, with the result
/// object at `<prefix><result_suffix>`.
pub open spec fn plan_of(category: Seq<char>, input: Seq<char>, result_suffix: Seq<char>) -> (
    Seq<char>,
    Seq<char>,
    Seq<char>,
    Seq<char>,
    Seq<char>,
) {
    let hash = key_of(input);
    let prefix = category + "/"@ + hash;
    (input, hash, prefix, prefix + "/meta.json"@, prefix + result_suffix)
}

pub open spec fn plan_matches(p: CachePlan, category: Seq<char>, input: Seq<char>, result_suffix: Seq<char>) -> bool {
    (p.cache_key_input@, p.hash@, p.prefix@, p.meta_key@, p.result_key@) == plan_of(category, input, result_suffix)
}

fn make_plan(category: &str, input: String, result_suffix: &str) -> (r: CachePlan)
    ensures
        plan_matches(r, category@, input@, result_suffix@),
{
    let hash = compute_hash(input.as_str());
    let mut prefix = String::from_str(category);
    prefix.append("/");
    prefix.append(hash.as_str());
    let mut meta_key = prefix.clone();
    meta_key.append("/meta.json");
    let mut result_key = prefix.clone();
    result_key.append(result_suffix);
    CachePlan { cache_key_input: input, hash, prefix, meta_key, result_key }
}

/// The request of the crop tool: a URL and a box in coordinates from 0 to
/// 999 along each axis.
#[derive(Clone, Debug)]
pub struct CropImageRequest {
    pub image_url: String,
    pub x1: u32,
    pub y1: u32,
    pub x2: u32,
    pub y2: u32,
}

pub const MAX_COORD: u32 = 999;

/// The error text for a box coordinate above `MAX_COORD`.
pub open spec fn coordinate_range_message() -> Seq<char> {
    "coordinates must be within [0, 999]"@
}

/// `crop:<url>:<x1>:<y1>:<x2>:<y2>`.
pub open spec fn crop_key_input(url: Seq<char>, x1: u32, y1: u32, x2: u32, y2: u32) -> Seq<char> {
    "crop:"@ + url + ":"@ + decimal(x1 as nat) + ":"@ + decimal(y1 as nat) + ":"@ + decimal(x2 as nat) + ":"@
        + decimal(y2 as nat)
}

/// Validates a crop request and plans its cache entry under `processed/`.
pub fn plan_crop(request: &CropImageRequest) -> (r: Result<CachePlan, ToolError>)
    ensures
        checked_url(request.image_url@) is None ==> r matches Err(ToolError::InvalidParams(_)),
        checked_url(request.image_url@) matches Some(url) ==> {
            if request.x1 > MAX_COORD || request.y1 > MAX_COORD || request.x2 > MAX_COORD || request.y2
                > MAX_COORD {
                r matches Err(ToolError::InvalidParams(m)) && m@ == coordinate_range_message()
            } else {
                r matches Ok(p) && plan_matches(
                    p,
                    "processed"@,
                    crop_key_input(url, request.x1, request.y1, request.x2, request.y2),
                    "/result.png"@,
                )
            }
        },
{
    let url = validate_http_url(request.image_url.as_str())?;
    if request.x1 > MAX_COORD || request.y1 > MAX_COORD || request.x2 > MAX_COORD || request.y2 > MAX_COORD {
        return Err(ToolError::InvalidParams(String::from_str("coordinates must be within [0, 999]")));
    }
    let mut input = String::from_str("crop:");
    input.append(url.as_str());
    input.append(":");
    input.append(decimal_string(request.x1 as u64).as_str());
    input.append(":");
    input.append(decimal_string(request.y1 as u64).as_str());
    input.append(":");
    input.append(decimal_string(request.x2 as u64).as_str());
    input.append(":");
    input.append(decimal_string(request.y2 as u64).as_str());
    Ok(make_plan("processed", input, "/result.png"))
}

/// The direction of the rotate tool.
#[derive(Clone, Copy, Debug, PartialEq, Eq, Structural)]
pub enum RotateDirection {
    Right90,
    Left90,
    Flip180,
}

/// The request of the rotate tool.
#[derive(Clone, Debug)]
pub struct RotateImageRequest {
    pub url: String,
    pub direction: RotateDirection,
}

pub open spec fn direction_angle(d: RotateDirection) -> i32 {
    match d {
        RotateDirection::Right90 => 90,
        RotateDirection::Left90 => -90i32,
        RotateDirection::Flip180 => 180,
    }
}

pub open spec fn direction_token(d: RotateDirection) -> Seq<char> {
    match d {
        RotateDirection::Right90 => "right_90"@,
        RotateDirection::Left90 => "left_90"@,
        RotateDirection::Flip180 => "flip_180"@,
    }
}

impl RotateDirection {
    /// The angle in degrees: 90, -90 or 180.
    pub fn angle(&self) -> (r: i32)
        ensures
            r == direction_angle(*self),
    {
        match self {
            RotateDirection::Right90 => 90,
            RotateDirection::Left90 => -90,
            RotateDirection::Flip180 => 180,
        }
    }

    /// The name used in cache keys: `right_90`, `left_90` or `flip_180`.
    pub fn token(&self) -> (r: &'static str)
        ensures
            r@ == direction_token(*self),
    {
        match self {
            RotateDirection::Right90 => "right_90",
            RotateDirection::Left90 => "left_90",
            RotateDirection::Flip180 => "flip_180",
        }
    }
}

/// `rotate:<url>:<direction>`.
pub open spec fn rotate_key_input(url: Seq<char>, d: RotateDirection) -> Seq<char> {
    "rotate:"@ + url + ":"@ + direction_token(d)
}

/// Plans the cache entry of a rotation under `processed/`; the URL is keyed
/// as given.
pub fn plan_rotate(request: &RotateImageRequest) -> (r: CachePlan)
    ensures
        plan_matches(r, "processed"@, rotate_key_input(request.url@, request.direction), "/result.png"@),
{
    let mut input = String::from_str("rotate:");
    input.append(request.url.as_str());
    input.append(":");
    input.append(request.direction.token());
    make_plan("processed", input, "/result.png")
}

/// The request of the fetch tool: a URL and what to pay attention to.
#[derive(Clone, Debug)]
pub struct FetchImageRequest {
    pub url: String,
    pub focus: Option<String>,
}

/// The URL alone, or `<url>::<focus>` with the focus trimmed when it is not blank.
pub open spec fn fetch_key_input(url: Seq<char>, focus: Option<String>) -> Seq<char> {
    match focus {
        Some(f) => if trim_ws(f@).len() > 0 {
            url + "::"@ + trim_ws(f@)
        } else {
            url
        },
        None => url,
    }
}

/// Validates a fetch request and plans its cache entry under `images/`.
pub fn plan_fetch(request: &FetchImageRequest) -> (r: Result<CachePlan, ToolError>)
    ensures
        checked_url(request.url@) is None ==> r matches Err(ToolError::InvalidParams(_)),
        checked_url(request.url@) matches Some(url) ==> r matches Ok(p) && plan_matches(
            p,
            "images"@,
            fetch_key_input(url, request.focus),
            "/meta.json"@,
        ),
{
    let url = validate_http_url(request.url.as_str())?;
    let input = match &request.focus {
        Some(f) => {
            let t = trim(f.as_str());
            if t.unicode_len() > 0 {
                let mut s = url.clone();
                s.append("::");
                s.append(t);
                s
            } else {
                url.clone()
            }
        },
        None => url.clone(),
    };
    Ok(make_plan("images", input, "/meta.json"))
}

/// `ocr:<url>`.
pub open spec fn ocr_key_input(url: Seq<char>) -> Seq<char> {
    "ocr:"@ + url
}

/// Validates one URL of an OCR batch and plans its cache entry under
/// `ocr/`, with the text at `<prefix>/ocr.txt`.
pub fn plan_ocr(raw_url: &str) -> (r: Result<CachePlan, ToolError>)
    ensures
        checked_url(raw_url@) is None ==> r matches Err(ToolError::InvalidParams(_)),
        checked_url(raw_url@) matches Some(url) ==> r matches Ok(p) && plan_matches(
            p,
            "ocr"@,
            ocr_key_input(url),
            "/ocr.txt"@,
        ),
{
    let url = validate_http_url(raw_url)?;
    let mut input = String::from_str("ocr:");
    input.append(url.as_str());
    Ok(make_plan("ocr", input, "/ocr.txt"))
}

/// The error text for an OCR request without URLs.
pub open spec fn empty_batch_message() -> Seq<char> {
    "urls不能为空"@
}

/// An OCR request must name at least one URL.
pub fn check_ocr_urls(urls: &Vec<String>) -> (r: Result<(), ToolError>)
    ensures
        urls@.len() == 0 ==> (r matches Err(ToolError::InvalidParams(m)) && m@ == empty_batch_message()),
        urls@.len() > 0 ==> r is Ok,
{
    if urls.len() == 0 {
        Err(ToolError::InvalidParams(String::from_str("urls不能为空")))
    } else {
        Ok(())
    }
}

/// One entry of an OCR batch's answer.
#[derive(Clone, Debug)]
pub struct OcrResult {
    pub image_url: String,
    pub text: String,
    pub cached_text_url: Option<String>,
}

/// The name, title and description of a fetched image: the defaults
/// `fetched-image`, `Fetched Image` and a request to analyse the picture,
/// each replaced by the trimmed text the description service gave when
/// that is not blank (the name serving as title too).
pub fn fetched_labels(described: Option<(String, String)>) -> (r: (String, String, String))
    ensures
        ({
            let (dn, dd) = match described {
                Some(d) => (trim_ws(d.0@), trim_ws(d.1@)),
                None => (Seq::<char>::empty(), Seq::<char>::empty()),
            };
            &&& r.0@ == (if dn.len() > 0 { dn } else { "fetched-image"@ })
            &&& r.1@ == (if dn.len() > 0 { dn } else { "Fetched Image"@ })
            &&& r.2@ == (if dd.len() > 0 { dd } else { "请分析图片内容。"@ })
        }),
{
    let mut name = String::from_str("fetched-image");
    let mut title = String::from_str("Fetched Image");
    let mut description = String::from_str("请分析图片内容。");
    if let Some((dn, dd)) = described {
        let n = trim(dn.as_str());
        if n.unicode_len() > 0 {
            name = String::from_str(n);
            title = String::from_str(n);
        }
        let d = trim(dd.as_str());
        if d.unicode_len() > 0 {
            description = String::from_str(d);
        }
    }
    (name, title, description)
}

} // verus!
