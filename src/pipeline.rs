//! The compute steps of the transform tools, between fetching the source
//! bytes and storing the result: pick the MIME type, decode, transform,
//! encode as PNG.
use vstd::prelude::*;
use crate::codec::{decode_image, decoded_rgba, detect_mime_type, encode_png, mime_kind, png_encoding, sniffed_mime};
use crate::pixels::{
    buffer_matches, get_rotated_dimensions, region_bytes, rotate_pixels, rotated_dims, rotated_pixels,
    valid_buffer,
};
use crate::text::{before_char, split_first, trim, trim_ws};
use crate::tools::{direction_angle, RotateDirection, ToolError};

verus! {

pub open spec fn opt_view(o: Option<&str>) -> Option<Seq<char>> {
    match o {
        Some(s) => Some(s@),
        None => None,
    }
}

/// The MIME type of fetched bytes: the one their signature announces,
/// else the media type of the content-type header (before any `;`, trimmed).
pub open spec fn resolved_mime(bytes: Seq<u8>, content_type: Option<Seq<char>>) -> Option<Seq<char>> {
    match sniffed_mime(bytes) {
        Some(m) => Some(m),
        None => match content_type {
            Some(h) => Some(trim_ws(before_char(h, ';'))),
            None => None,
        },
    }
}

/// The MIME type of fetched bytes, from their signature or else from the
/// content-type header.
pub fn resolve_mime(bytes: &[u8], content_type: Option<&str>) -> (r: Option<String>)
    ensures
        r is Some <==> resolved_mime(bytes@, opt_view(content_type)) is Some,
        r matches Some(m) ==> resolved_mime(bytes@, opt_view(content_type)) == Some(m@),
{
    match detect_mime_type(bytes) {
        Some(m) => Some(String::from_str(m)),
        None => match content_type {
            Some(h) => Some(String::from_str(trim(split_first(h, ';')))),
            None => None,
        },
    }
}

/// `c * extent / 1000`, rounded down: a coordinate from 0 to 999 as a pixel.
pub open spec fn per_mille(c: int, extent: int) -> int {
    c * extent / 1000
}

pub open spec fn min_int(a: int, b: int) -> int {
    if a <= b {
        a
    } else {
        b
    }
}

pub open spec fn max_int(a: int, b: int) -> int {
    if a >= b {
        a
    } else {
        b
    }
}

/// The crop window `(sx, sy, nw, nh)` of a box in coordinates from 0 to
/// 999: corners scaled to pixels, put in order, capped at the image size.
pub open spec fn box_window(w: int, h: int, x1: int, y1: int, x2: int, y2: int) -> (int, int, int, int) {
    let ax1 = per_mille(x1, w);
    let ax2 = per_mille(x2, w);
    let ay1 = per_mille(y1, h);
    let ay2 = per_mille(y2, h);
    let lx = min_int(min_int(ax1, ax2), w);
    let hx = min_int(max_int(ax1, ax2), w);
    let ly = min_int(min_int(ay1, ay2), h);
    let hy = min_int(max_int(ay1, ay2), h);
    (lx, ly, hx - lx, hy - ly)
}

fn scale_coord(c: u32, extent: u32) -> (r: u64)
    ensures
        r as int == per_mille(c as int, extent as int),
{
    assert((c as int) * (extent as int) <= u64::MAX) by (nonlinear_arith)
        requires
            c <= u32::MAX,
            extent <= u32::MAX,
    ;
    (c as u64) * (extent as u64) / 1000
}

/// Crops a decoded buffer to the window of a box in coordinates from 0 to
/// 999: an empty window is the caller's error, a buffer that does not match
/// its dimensions an internal one.
pub fn crop_box_pixels(pixels: &[u8], width: u32, height: u32, x1: u32, y1: u32, x2: u32, y2: u32) -> (r: Result<
    (Vec<u8>, u32, u32),
    ToolError,
>)
    ensures
        ({
            let (sx, sy, nw, nh) = box_window(width as int, height as int, x1 as int, y1 as int, x2 as int, y2 as int);
            if nw == 0 || nh == 0 {
                r matches Err(ToolError::InvalidParams(_))
            } else if !valid_buffer(pixels@.len() as int, width as int, height as int) {
                r matches Err(ToolError::Internal(_))
            } else {
                r matches Ok(v) && v.1 as int == nw && v.2 as int == nh && v.0@ == region_bytes(
                    pixels@,
                    width as int,
                    sx,
                    sy,
                    nw,
                    nh,
                )
            }
        }),
{
    let ax1 = scale_coord(x1, width);
    let ax2 = scale_coord(x2, width);
    let ay1 = scale_coord(y1, height);
    let ay2 = scale_coord(y2, height);
    let (mut lx, mut hx) = if ax1 > ax2 { (ax2, ax1) } else { (ax1, ax2) };
    let (mut ly, mut hy) = if ay1 > ay2 { (ay2, ay1) } else { (ay1, ay2) };
    let w = width as u64;
    let h = height as u64;
    if lx > w { lx = w; }
    if hx > w { hx = w; }
    if ly > h { ly = h; }
    if hy > h { hy = h; }
    let new_width = (hx - lx) as u32;
    let new_height = (hy - ly) as u32;
    if new_width == 0 || new_height == 0 {
        return Err(ToolError::InvalidParams(String::from_str("cropped size is zero")));
    }
    if !buffer_matches(pixels.len(), width, height) {
        return Err(ToolError::Internal(String::from_str("invalid image buffer")));
    }
    let out = crate::pixels::copy_region(pixels, width, height, lx as u32, ly as u32, new_width, new_height);
    Ok((out, new_width, new_height))
}

/// What the crop tool computes from fetched bytes: the PNG of the cropped
/// window, or the step that failed.
pub open spec fn crop_outcome_ok(
    bytes: Seq<u8>,
    content_type: Option<Seq<char>>,
    x1: u32,
    y1: u32,
    x2: u32,
    y2: u32,
    r: Result<Vec<u8>, ToolError>,
) -> bool {
    match resolved_mime(bytes, content_type) {
        None => r matches Err(ToolError::Internal(_)),
        Some(m) => match mime_kind(m) {
            None => r matches Err(ToolError::Internal(_)),
            Some(k) => match decoded_rgba(bytes, k) {
                None => r matches Err(ToolError::Internal(_)),
                Some(d) => {
                    let (px, w, h) = d;
                    let (sx, sy, nw, nh) = box_window(w as int, h as int, x1 as int, y1 as int, x2 as int, y2 as int);
                    if nw == 0 || nh == 0 {
                        r matches Err(ToolError::InvalidParams(_))
                    } else {
                        match png_encoding(region_bytes(px, w as int, sx, sy, nw, nh), nw as u32, nh as u32) {
                            None => r matches Err(ToolError::Internal(_)),
                            Some(png) => r matches Ok(v) && v@ == png,
                        }
                    }
                },
            },
        },
    }
}

/// Sniffs, decodes, crops to the box (coordinates from 0 to 999) and
/// encodes the result as PNG.
pub fn process_crop(bytes: &[u8], content_type: Option<&str>, x1: u32, y1: u32, x2: u32, y2: u32) -> (r: Result<
    Vec<u8>,
    ToolError,
>)
    ensures
        crop_outcome_ok(bytes@, opt_view(content_type), x1, y1, x2, y2, r),
{
    let mime = match resolve_mime(bytes, content_type) {
        Some(m) => m,
        None => return Err(ToolError::Internal(String::from_str("unsupported image type"))),
    };
    let (pixels, width, height) = match decode_image(bytes, mime.as_str()) {
        Ok(d) => d,
        Err(_) => return Err(ToolError::Internal(String::from_str("decode image failed"))),
    };
    let (cropped, nw, nh) = crop_box_pixels(pixels.as_slice(), width, height, x1, y1, x2, y2)?;
    match encode_png(cropped.as_slice(), nw, nh) {
        Ok(png) => Ok(png),
        Err(_) => Err(ToolError::Internal(String::from_str("encode image failed"))),
    }
}

/// What the rotate tool computes from fetched bytes: the PNG of the rotated
/// image, or the step that failed.
pub open spec fn rotate_outcome_ok(
    bytes: Seq<u8>,
    content_type: Option<Seq<char>>,
    direction: RotateDirection,
    r: Result<Vec<u8>, ToolError>,
) -> bool {
    match resolved_mime(bytes, content_type) {
        None => r matches Err(ToolError::Internal(_)),
        Some(m) => match mime_kind(m) {
            None => r matches Err(ToolError::Internal(_)),
            Some(k) => match decoded_rgba(bytes, k) {
                None => r matches Err(ToolError::Internal(_)),
                Some(d) => {
                    let (px, w, h) = d;
                    let a = direction_angle(direction);
                    let (nw, nh) = rotated_dims(w as int, h as int, a);
                    match png_encoding(rotated_pixels(px, w as int, h as int, a), nw as u32, nh as u32) {
                        None => r matches Err(ToolError::Internal(_)),
                        Some(png) => r matches Ok(v) && v@ == png,
                    }
                },
            },
        },
    }
}

/// Sniffs, decodes, rotates in the given direction and encodes the result as PNG.
pub fn process_rotate(bytes: &[u8], content_type: Option<&str>, direction: RotateDirection) -> (r: Result<
    Vec<u8>,
    ToolError,
>)
    ensures
        rotate_outcome_ok(bytes@, opt_view(content_type), direction, r),
{
    let mime = match resolve_mime(bytes, content_type) {
        Some(m) => m,
        None => return Err(ToolError::Internal(String::from_str("unsupported image type"))),
    };
    let (pixels, width, height) = match decode_image(bytes, mime.as_str()) {
        Ok(d) => d,
        Err(_) => return Err(ToolError::Internal(String::from_str("decode image failed"))),
    };
    let angle = direction.angle();
    let dims = get_rotated_dimensions(width, height, angle);
    let rotated = rotate_pixels(pixels.as_slice(), width, height, angle);
    proof {
        let nw = rotated_dims(width as int, height as int, angle).0;
        let nh = rotated_dims(width as int, height as int, angle).1;
        assert(nw * nh * 4 == (width as int) * (height as int) * 4) by (nonlinear_arith)
            requires
                (nw == width && nh == height) || (nw == height && nh == width),
        ;
    }
    match encode_png(rotated.as_slice(), dims[0], dims[1]) {
        Ok(png) => Ok(png),
        Err(_) => Err(ToolError::Internal(String::from_str("encode image failed"))),
    }
}

} // verus!
