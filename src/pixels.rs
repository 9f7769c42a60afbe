//! Raw RGBA pixel transforms: interleaved, four bytes per pixel, row-major,
//! origin top-left. A buffer whose length does not match its dimensions
//! gives an empty result.
use vstd::prelude::*;
use vstd::arithmetic::div_mod::{
    lemma_div_is_ordered, lemma_div_pos_is_pos, lemma_fundamental_div_mod, lemma_fundamental_div_mod_converse,
};

verus! {

/// A buffer holds exactly `width * height` pixels.
pub open spec fn valid_buffer(len: int, width: int, height: int) -> bool {
    len == width * height * 4
}

/// Position of byte `k` of pixel `(x, y)` in a buffer of the given width.
pub open spec fn byte_index(x: int, y: int, width: int, k: int) -> int {
    (y * width + x) * 4 + k
}

/// Output dimensions of a rotation: swapped for a quarter turn either way,
/// kept for a half turn and for any other angle.
pub open spec fn rotated_dims(width: int, height: int, angle: i32) -> (int, int) {
    if angle == 90 || angle == -90 {
        (height, width)
    } else {
        (width, height)
    }
}

/// Where source pixel `(x, y)` lands after a rotation.
pub open spec fn rotate_dest(angle: i32, width: int, height: int, x: int, y: int) -> (int, int) {
    if angle == 90 {
        (height - 1 - y, x)
    } else if angle == -90 {
        (y, width - 1 - x)
    } else if angle == 180 {
        (width - 1 - x, height - 1 - y)
    } else {
        (x, y)
    }
}

/// Which source pixel lands on output pixel `(nx, ny)`.
pub open spec fn rotate_source(angle: i32, width: int, height: int, nx: int, ny: int) -> (int, int) {
    if angle == 90 {
        (ny, height - 1 - nx)
    } else if angle == -90 {
        (width - 1 - ny, nx)
    } else if angle == 180 {
        (width - 1 - nx, height - 1 - ny)
    } else {
        (nx, ny)
    }
}

/// Byte `i` of the rotated buffer, read through the inverse mapping.
pub open spec fn rotated_byte(pixels: Seq<u8>, width: int, height: int, angle: i32, i: int) -> u8 {
    let nw = rotated_dims(width, height, angle).0;
    let p = i / 4;
    let src = rotate_source(angle, width, height, p % nw, p / nw);
    pixels[byte_index(src.0, src.1, width, i % 4)]
}

/// The whole rotated buffer; empty for a buffer that does not match its dimensions.
pub open spec fn rotated_pixels(pixels: Seq<u8>, width: int, height: int, angle: i32) -> Seq<u8> {
    if valid_buffer(pixels.len() as int, width, height) {
        Seq::new(pixels.len(), |i: int| rotated_byte(pixels, width, height, angle, i))
    } else {
        Seq::empty()
    }
}

/// The bytes of the window `(sx, sy, nw, nh)`, row by row.
pub open spec fn region_bytes(pixels: Seq<u8>, width: int, sx: int, sy: int, nw: int, nh: int) -> Seq<u8> {
    Seq::new((nw * nh * 4) as nat, |i: int| pixels[byte_index(sx + (i / 4) % nw, sy + (i / 4) / nw, width, i % 4)])
}

proof fn lemma_decompose(nx: int, ny: int, nw: int, k: int)
    requires
        0 <= nx < nw,
        0 <= ny,
        0 <= k < 4,
    ensures
        (ny * nw + nx) * 4 + k >= 0,
        ((ny * nw + nx) * 4 + k) / 4 == ny * nw + nx,
        ((ny * nw + nx) * 4 + k) % 4 == k,
        (ny * nw + nx) / nw == ny,
        (ny * nw + nx) % nw == nx,
{
    assert(ny * nw >= 0) by (nonlinear_arith)
        requires
            ny >= 0,
            nw > 0,
    ;
    lemma_fundamental_div_mod_converse((ny * nw + nx) * 4 + k, 4, ny * nw + nx, k);
    lemma_fundamental_div_mod_converse(ny * nw + nx, nw, ny, nx);
}

proof fn lemma_index_bound(x: int, y: int, w: int, h: int)
    requires
        0 <= x < w,
        0 <= y < h,
    ensures
        0 <= y * w,
        y * w + x < w * h,
        (y * w + x) * 4 + 3 < w * h * 4,
{
    assert(0 <= y * w && y * w + x < w * h) by (nonlinear_arith)
        requires
            0 <= x < w,
            0 <= y < h,
    ;
}

/// Checks `len == width * height * 4` without overflow.
pub fn buffer_matches(len: usize, width: u32, height: u32) -> (r: bool)
    ensures
        r == valid_buffer(len as int, width as int, height as int),
{
    assert((width as int) * (height as int) <= u64::MAX) by (nonlinear_arith)
        requires
            width <= u32::MAX,
            height <= u32::MAX,
    ;
    let wh: u64 = (width as u64) * (height as u64);
    let ok = len % 4 == 0 && (len / 4) as u64 == wh;
    proof {
        let l = len as int;
        assert(l == (l / 4) * 4 + l % 4) by (nonlinear_arith);
        if valid_buffer(l, width as int, height as int) {
            lemma_fundamental_div_mod_converse(l, 4, (width as int) * (height as int), 0);
        }
    }
    ok
}

/// Output dimensions `[width, height]` of `rotate_pixels` for the same inputs.
pub fn get_rotated_dimensions(width: u32, height: u32, angle: i32) -> (r: Vec<u32>)
    ensures
        r@.len() == 2,
        r@[0] as int == rotated_dims(width as int, height as int, angle).0,
        r@[1] as int == rotated_dims(width as int, height as int, angle).1,
{
    if angle == 90 || angle == -90 {
        vec![height, width]
    } else {
        vec![width, height]
    }
}

/// Rotates an RGBA buffer by 90, -90 or 180 degrees; any other angle keeps
/// the pixels as they are. Source pixel `(x, y)` moves to `rotate_dest`.
pub fn rotate_pixels(pixels: &[u8], width: u32, height: u32, angle: i32) -> (r: Vec<u8>)
    ensures
        r@ == rotated_pixels(pixels@, width as int, height as int, angle),
        !valid_buffer(pixels@.len() as int, width as int, height as int) ==> r@.len() == 0,
        valid_buffer(pixels@.len() as int, width as int, height as int) ==> {
            &&& r@.len() == pixels@.len()
            &&& forall|x: int, y: int, k: int|
                0 <= x < width && 0 <= y < height && 0 <= k < 4 ==> {
                    let d = rotate_dest(angle, width as int, height as int, x, y);
                    let nw = rotated_dims(width as int, height as int, angle).0;
                    #[trigger] byte_index(x, y, width as int, k) >= 0
                        && r@[byte_index(d.0, d.1, nw, k)] == pixels@[byte_index(x, y, width as int, k)]
                }
        },
{
    let len = pixels.len();
    if !buffer_matches(len, width, height) {
        return Vec::new();
    }
    let w = width as usize;
    let h = height as usize;
    let quarter = angle == 90 || angle == -90;
    let nw: usize = if quarter { h } else { w };
    let nh: usize = if quarter { w } else { h };
    let ghost gw = w as int;
    let ghost gh = h as int;
    assert(nw * nh == w * h) by (nonlinear_arith)
        requires
            (nw == w && nh == h) || (nw == h && nh == w),
    ;
    let mut out: Vec<u8> = Vec::new();
    let mut ny: usize = 0;
    while ny < nh
        invariant
            ny <= nh,
            nw == rotated_dims(gw, gh, angle).0,
            nh == rotated_dims(gw, gh, angle).1,
            gw == width,
            gh == height,
            w as int == gw,
            h as int == gh,
            nw * nh == gw * gh,
            len == pixels@.len(),
            valid_buffer(len as int, gw, gh),
            out@.len() == ny * nw * 4,
            forall|i: int| 0 <= i < out@.len() ==> out@[i] == rotated_byte(pixels@, gw, gh, angle, i),
        decreases nh - ny,
    {
        let mut nx: usize = 0;
        while nx < nw
            invariant
                ny < nh,
                nx <= nw,
                nw == rotated_dims(gw, gh, angle).0,
                nh == rotated_dims(gw, gh, angle).1,
                gw == width,
                gh == height,
                w as int == gw,
                h as int == gh,
                nw * nh == gw * gh,
                len == pixels@.len(),
                valid_buffer(len as int, gw, gh),
                out@.len() == (ny * nw + nx) * 4,
                forall|i: int| 0 <= i < out@.len() ==> out@[i] == rotated_byte(pixels@, gw, gh, angle, i),
            decreases nw - nx,
        {
            let sx: usize;
            let sy: usize;
            if angle == 90 {
                sx = ny;
                sy = h - 1 - nx;
            } else if angle == -90 {
                sx = w - 1 - ny;
                sy = nx;
            } else if angle == 180 {
                sx = w - 1 - nx;
                sy = h - 1 - ny;
            } else {
                sx = nx;
                sy = ny;
            }
            proof {
                lemma_index_bound(sx as int, sy as int, gw, gh);
            }
            let base: usize = (sy * w + sx) * 4;
            let mut k: usize = 0;
            while k < 4
                invariant
                    ny < nh,
                    nx < nw,
                    k <= 4,
                    nw == rotated_dims(gw, gh, angle).0,
                    gw == width,
                    gh == height,
                    len == pixels@.len(),
                    valid_buffer(len as int, gw, gh),
                    (sx as int, sy as int) == rotate_source(angle, gw, gh, nx as int, ny as int),
                    0 <= sx < gw,
                    0 <= sy < gh,
                    base == byte_index(sx as int, sy as int, gw, 0),
                    base + 3 < len,
                    out@.len() == (ny * nw + nx) * 4 + k,
                    forall|i: int| 0 <= i < out@.len() ==> out@[i] == rotated_byte(pixels@, gw, gh, angle, i),
                decreases 4 - k,
            {
                proof {
                    lemma_decompose(nx as int, ny as int, nw as int, k as int);
                }
                out.push(pixels[base + k]);
                k = k + 1;
            }
            proof {
                assert((ny * nw + nx) * 4 + 4 == (ny * nw + (nx + 1)) * 4) by (nonlinear_arith);
            }
            nx = nx + 1;
        }
        proof {
            assert((ny * nw + nw) * 4 == (ny + 1) * nw * 4) by (nonlinear_arith);
        }
        ny = ny + 1;
    }
    proof {
        assert forall|x: int, y: int, k: int|
            0 <= x < width && 0 <= y < height && 0 <= k < 4 implies {
                let d = rotate_dest(angle, width as int, height as int, x, y);
                let nw = rotated_dims(width as int, height as int, angle).0;
                #[trigger] byte_index(x, y, width as int, k) >= 0
                    && out@[byte_index(d.0, d.1, nw, k)] == pixels@[byte_index(x, y, width as int, k)]
            } by {
            let d = rotate_dest(angle, gw, gh, x, y);
            lemma_index_bound(x, y, gw, gh);
            lemma_index_bound(d.0, d.1, nw as int, nh as int);
            lemma_decompose(d.0, d.1, nw as int, k);
        }
        assert(out@ =~= rotated_pixels(pixels@, width as int, height as int, angle));
    }
    out
}

/// A crop bound is a ratio of the image's extent, in millionths.
pub const RATIO_ONE: i64 = 1_000_000;

/// A ratio clamped into `[0, 1]`.
pub open spec fn clamp_ratio(r: int) -> int {
    if r < 0 {
        0
    } else if r > 1_000_000 {
        1_000_000
    } else {
        r
    }
}

/// `extent * r` rounded to the nearest integer, halves away from zero.
pub open spec fn scale_round(extent: int, r: int) -> int {
    (2 * extent * r + 1_000_000) / 2_000_000
}

pub open spec fn sat_sub(a: int, b: int) -> int {
    if a >= b {
        a - b
    } else {
        0
    }
}

/// The crop window `(start_x, start_y, width, height)` for the bounds, or
/// `None` when, after clamping, `left >= right` or `top >= bottom`.
pub open spec fn crop_box(w: int, h: int, left: int, top: int, right: int, bottom: int) -> Option<
    (int, int, int, int),
> {
    let l = clamp_ratio(left);
    let t = clamp_ratio(top);
    let r = clamp_ratio(right);
    let b = clamp_ratio(bottom);
    if l >= r || t >= b {
        None
    } else {
        let sx = scale_round(w, l);
        let sy = scale_round(h, t);
        Some((sx, sy, sat_sub(scale_round(w, r), sx), sat_sub(scale_round(h, b), sy)))
    }
}

proof fn lemma_scale_round_bounds(extent: int, r: int, r2: int)
    requires
        0 <= extent,
        0 <= r <= r2 <= 1_000_000,
    ensures
        0 <= scale_round(extent, r) <= scale_round(extent, r2) <= extent,
{
    assert(0 <= 2 * extent * r <= 2 * extent * r2 <= 2 * extent * 1_000_000) by (nonlinear_arith)
        requires
            0 <= extent,
            0 <= r <= r2 <= 1_000_000,
    ;
    lemma_div_pos_is_pos(2 * extent * r + 1_000_000, 2_000_000);
    lemma_div_is_ordered(2 * extent * r + 1_000_000, 2 * extent * r2 + 1_000_000, 2_000_000);
    lemma_div_is_ordered(2 * extent * r2 + 1_000_000, extent * 2_000_000 + 1_000_000, 2_000_000);
    lemma_fundamental_div_mod_converse(extent * 2_000_000 + 1_000_000, 2_000_000, extent, 1_000_000);
}

/// The window of `crop_box` lies inside the image.
pub proof fn lemma_crop_box_inside(w: int, h: int, left: int, top: int, right: int, bottom: int)
    requires
        0 <= w,
        0 <= h,
        crop_box(w, h, left, top, right, bottom) is Some,
    ensures
        ({
            let c = crop_box(w, h, left, top, right, bottom)->0;
            &&& 0 <= c.0 && 0 <= c.2 && c.0 + c.2 <= w
            &&& 0 <= c.1 && 0 <= c.3 && c.1 + c.3 <= h
        }),
{
    lemma_scale_round_bounds(w, clamp_ratio(left), clamp_ratio(right));
    lemma_scale_round_bounds(h, clamp_ratio(top), clamp_ratio(bottom));
}

fn clamp_bound(r: i64) -> (v: u64)
    ensures
        v as int == clamp_ratio(r as int),
{
    if r < 0 {
        0
    } else if r > RATIO_ONE {
        RATIO_ONE as u64
    } else {
        r as u64
    }
}

fn round_scaled(extent: u32, r: u64) -> (v: u32)
    requires
        r <= 1_000_000,
    ensures
        v as int == scale_round(extent as int, r as int),
        v <= extent,
{
    proof {
        lemma_scale_round_bounds(extent as int, r as int, r as int);
        assert(2 * (extent as int) * (r as int) <= 2 * 4_294_967_295 * 1_000_000) by (nonlinear_arith)
            requires
                extent <= 4_294_967_295,
                r <= 1_000_000,
        ;
    }
    let v = (2 * (extent as u64) * r + 1_000_000) / 2_000_000;
    v as u32
}

/// Copies the window `(sx, sy, nw, nh)` out of a valid buffer.
pub(crate) fn copy_region(pixels: &[u8], width: u32, height: u32, sx: u32, sy: u32, nw: u32, nh: u32) -> (r: Vec<u8>)
    requires
        valid_buffer(pixels@.len() as int, width as int, height as int),
        sx + nw <= width,
        sy + nh <= height,
    ensures
        r@ == region_bytes(pixels@, width as int, sx as int, sy as int, nw as int, nh as int),
        r@.len() == nw * nh * 4,
        forall|x: int, y: int, k: int|
            0 <= x < nw && 0 <= y < nh && 0 <= k < 4 ==> #[trigger] byte_index(x, y, nw as int, k) >= 0
                && r@[byte_index(x, y, nw as int, k)] == pixels@[byte_index(sx + x, sy + y, width as int, k)],
{
    let w = width as usize;
    let ghost gw = width as int;
    let ghost pix = pixels@;
    let plen = pixels.len();
    let mut out: Vec<u8> = Vec::new();
    let mut y: u32 = 0;
    while y < nh
        invariant
            y <= nh,
            sx + nw <= width,
            sy + nh <= height,
            w as int == gw,
            gw == width,
            pix == pixels@,
            plen == pixels@.len(),
            valid_buffer(pixels@.len() as int, width as int, height as int),
            out@.len() == (y * nw) * 4,
            forall|i: int|
                0 <= i < out@.len() ==> out@[i] == pix[byte_index(
                    sx + (i / 4) % (nw as int),
                    sy + (i / 4) / (nw as int),
                    gw,
                    i % 4,
                )],
        decreases nh - y,
    {
        let mut x: u32 = 0;
        while x < nw
            invariant
                y < nh,
                x <= nw,
                sx + nw <= width,
                sy + nh <= height,
                w as int == gw,
                gw == width,
                pix == pixels@,
                plen == pixels@.len(),
                valid_buffer(pixels@.len() as int, width as int, height as int),
                out@.len() == (y * nw + x) * 4,
                forall|i: int|
                    0 <= i < out@.len() ==> out@[i] == pix[byte_index(
                        sx + (i / 4) % (nw as int),
                        sy + (i / 4) / (nw as int),
                        gw,
                        i % 4,
                    )],
            decreases nw - x,
        {
            let px = (sx + x) as usize;
            let py = (sy + y) as usize;
            proof {
                lemma_index_bound(px as int, py as int, width as int, height as int);
                assert((py * w + px) * 4 + 3 < pixels@.len());
            }
            let base: usize = (py * w + px) * 4;
            let mut k: usize = 0;
            while k < 4
                invariant
                    y < nh,
                    x < nw,
                    k <= 4,
                    w as int == gw,
                    gw == width,
                    pix == pixels@,
                    px == sx + x,
                    py == sy + y,
                    base == byte_index(px as int, py as int, gw, 0),
                    base + 3 < pixels@.len(),
                    out@.len() == (y * nw + x) * 4 + k,
                    forall|i: int|
                        0 <= i < out@.len() ==> out@[i] == pix[byte_index(
                            sx + (i / 4) % (nw as int),
                            sy + (i / 4) / (nw as int),
                            gw,
                            i % 4,
                        )],
                decreases 4 - k,
            {
                proof {
                    lemma_decompose(x as int, y as int, nw as int, k as int);
                }
                out.push(pixels[base + k]);
                k = k + 1;
            }
            proof {
                assert((y * nw + x) * 4 + 4 == (y * nw + (x + 1)) * 4) by (nonlinear_arith);
            }
            x = x + 1;
        }
        proof {
            assert((y * nw + nw) * 4 == (y + 1) * nw * 4) by (nonlinear_arith);
        }
        y = y + 1;
    }
    proof {
        assert forall|x: int, y: int, k: int|
            0 <= x < nw && 0 <= y < nh && 0 <= k < 4 implies #[trigger] byte_index(x, y, nw as int, k) >= 0
                && out@[byte_index(x, y, nw as int, k)] == pixels@[byte_index(sx + x, sy + y, width as int, k)] by {
            lemma_index_bound(x, y, nw as int, nh as int);
            lemma_decompose(x, y, nw as int, k);
        }
        assert((nh * nw) * 4 == nw * nh * 4) by (nonlinear_arith);
        assert(out@ =~= region_bytes(pixels@, width as int, sx as int, sy as int, nw as int, nh as int));
    }
    out
}

/// Output dimensions `[width, height]` of `crop_pixels` for the same inputs;
/// `[0, 0]` when the clamped bounds are empty.
pub fn get_cropped_dimensions(width: u32, height: u32, left: i64, top: i64, right: i64, bottom: i64) -> (r: Vec<u32>)
    ensures
        r@.len() == 2,
        crop_box(width as int, height as int, left as int, top as int, right as int, bottom as int) is None
            ==> r@[0] == 0 && r@[1] == 0,
        crop_box(width as int, height as int, left as int, top as int, right as int, bottom as int) matches Some(c)
            ==> r@[0] as int == c.2 && r@[1] as int == c.3,
{
    let l = clamp_bound(left);
    let t = clamp_bound(top);
    let r = clamp_bound(right);
    let b = clamp_bound(bottom);
    if l >= r || t >= b {
        return vec![0, 0];
    }
    let start_x = round_scaled(width, l);
    let start_y = round_scaled(height, t);
    let end_x = round_scaled(width, r);
    let end_y = round_scaled(height, b);
    vec![end_x.saturating_sub(start_x), end_y.saturating_sub(start_y)]
}

/// Crops an RGBA buffer to the window that `crop_box` gives for the bounds.
/// The result is empty when the buffer does not match its dimensions, when
/// the clamped bounds are empty, or when the window has no pixel.
pub fn crop_pixels(
    pixels: &[u8],
    width: u32,
    height: u32,
    left: i64,
    top: i64,
    right: i64,
    bottom: i64,
) -> (r: Vec<u8>)
    ensures
        ({
            let c = crop_box(width as int, height as int, left as int, top as int, right as int, bottom as int);
            let (sx, sy, nw, nh) = c.unwrap_or((0, 0, 0, 0));
            if !valid_buffer(pixels@.len() as int, width as int, height as int) || nw == 0 || nh == 0 {
                r@.len() == 0
            } else {
                &&& r@.len() == nw * nh * 4
                &&& forall|x: int, y: int, k: int|
                    0 <= x < nw && 0 <= y < nh && 0 <= k < 4 ==> #[trigger] byte_index(x, y, nw, k) >= 0
                        && r@[byte_index(x, y, nw, k)] == pixels@[byte_index(sx + x, sy + y, width as int, k)]
            }
        }),
{
    if !buffer_matches(pixels.len(), width, height) {
        return Vec::new();
    }
    let l = clamp_bound(left);
    let t = clamp_bound(top);
    let r = clamp_bound(right);
    let b = clamp_bound(bottom);
    if l >= r || t >= b {
        return Vec::new();
    }
    let start_x = round_scaled(width, l);
    let start_y = round_scaled(height, t);
    let end_x = round_scaled(width, r);
    let end_y = round_scaled(height, b);
    let new_width = end_x.saturating_sub(start_x);
    let new_height = end_y.saturating_sub(start_y);
    if new_width == 0 || new_height == 0 {
        return Vec::new();
    }
    proof {
        lemma_crop_box_inside(width as int, height as int, left as int, top as int, right as int, bottom as int);
    }
    copy_region(pixels, width, height, start_x, start_y, new_width, new_height)
}

/// Bounds that coincide after clamping (`left == right` or `top == bottom`)
/// leave no crop window, so `crop_pixels` gives an empty buffer and
/// `get_cropped_dimensions` gives `[0, 0]`.
pub proof fn lemma_crop_equal_bounds_empty(w: int, h: int, left: int, top: int, right: int, bottom: int)
    requires
        clamp_ratio(left) == clamp_ratio(right) || clamp_ratio(top) == clamp_ratio(bottom),
    ensures
        crop_box(w, h, left, top, right, bottom) is None,
{
}

/// A quarter turn swaps the dimensions, a half turn keeps them, and a
/// quarter turn followed by the opposite quarter turn restores them.
pub proof fn lemma_rotated_dims_restore(width: int, height: int)
    ensures
        rotated_dims(width, height, 90) == (height, width),
        rotated_dims(width, height, -90i32) == (height, width),
        rotated_dims(width, height, 180) == (width, height),
        rotated_dims(rotated_dims(width, height, 90).0, rotated_dims(width, height, 90).1, -90i32) == (width, height),
        rotated_dims(rotated_dims(width, height, -90i32).0, rotated_dims(width, height, -90i32).1, 90) == (width, height),
{
}

/// A quarter turn right followed by a quarter turn left gives back the
/// original buffer.
pub proof fn lemma_rotate_right_left_restores(pixels: Seq<u8>, width: int, height: int)
    requires
        width >= 0,
        height >= 0,
        valid_buffer(pixels.len() as int, width, height),
    ensures
        rotated_pixels(rotated_pixels(pixels, width, height, 90), height, width, -90i32) == pixels,
{
    let r1 = rotated_pixels(pixels, width, height, 90);
    assert(height * width * 4 == width * height * 4) by (nonlinear_arith);
    let r2 = rotated_pixels(r1, height, width, -90i32);
    assert forall|i: int| 0 <= i < pixels.len() implies r2[i] == pixels[i] by {
        let p = i / 4;
        let k = i % 4;
        lemma_fundamental_div_mod(i, 4);
        assert(0 <= p && p < width * height) by (nonlinear_arith)
            requires
                i == 4 * p + k,
                0 <= k < 4,
                0 <= i < width * height * 4,
        ;
        assert(width > 0) by (nonlinear_arith)
            requires
                0 <= p < width * height,
                width >= 0,
                height >= 0,
        ;
        let nx = p % width;
        let ny = p / width;
        lemma_fundamental_div_mod(p, width);
        assert(0 <= nx < width);
        assert(0 <= ny < height) by (nonlinear_arith)
            requires
                p == width * ny + nx,
                0 <= nx < width,
                0 <= p < width * height,
        ;
        let sx = height - 1 - ny;
        lemma_decompose(sx, nx, height, k);
        lemma_index_bound(sx, nx, height, width);
        let j = byte_index(sx, nx, height, k);
        assert(j == (nx * height + sx) * 4 + k);
        assert(0 <= j < pixels.len());
        assert(r2[i] == rotated_byte(r1, height, width, -90i32, i));
        assert(rotate_source(-90i32, height, width, nx, ny) == (sx, nx));
        assert(rotated_byte(r1, height, width, -90i32, i) == r1[j]);
        assert(r1[j] == rotated_byte(pixels, width, height, 90, j));
        assert(rotate_source(90, width, height, sx, nx) == (nx, ny));
        assert((ny * width + nx) * 4 + k == i) by (nonlinear_arith)
            requires
                i == 4 * p + k,
                p == width * ny + nx,
        ;
        assert(rotated_byte(pixels, width, height, 90, j) == pixels[byte_index(nx, ny, width, k)]);
    }
    assert(r2 =~= pixels);
}

} // verus!
