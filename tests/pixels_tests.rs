use image_edit_rmcp::pixels::{crop_pixels, get_cropped_dimensions, get_rotated_dimensions, rotate_pixels, RATIO_ONE};

fn gradient(width: u32, height: u32) -> Vec<u8> {
    let mut out = Vec::new();
    for y in 0..height {
        for x in 0..width {
            out.push(x as u8);
            out.push(y as u8);
            out.push((x + y) as u8);
            out.push(255);
        }
    }
    out
}

fn pixel(buf: &[u8], width: u32, x: u32, y: u32) -> Vec<u8> {
    let i = ((y * width + x) * 4) as usize;
    buf[i..i + 4].to_vec()
}

#[test]
fn crop_half_of_square_keeps_origin_pixel() {
    let src = gradient(100, 100);
    let half = RATIO_ONE / 2;
    let out = crop_pixels(&src, 100, 100, 0, 0, half, half);
    assert_eq!(out.len(), 50 * 50 * 4);
    assert_eq!(pixel(&out, 50, 0, 0), pixel(&src, 100, 0, 0));
    assert_eq!(pixel(&out, 50, 49, 49), pixel(&src, 100, 49, 49));
    assert_eq!(get_cropped_dimensions(100, 100, 0, 0, half, half), vec![50, 50]);
}

#[test]
fn crop_offset_window_maps_pixels() {
    let src = gradient(10, 10);
    let out = crop_pixels(&src, 10, 10, 200_000, 300_000, 600_000, 900_000);
    assert_eq!(get_cropped_dimensions(10, 10, 200_000, 300_000, 600_000, 900_000), vec![4, 6]);
    assert_eq!(out.len(), 4 * 6 * 4);
    assert_eq!(pixel(&out, 4, 0, 0), pixel(&src, 10, 2, 3));
    assert_eq!(pixel(&out, 4, 3, 5), pixel(&src, 10, 5, 8));
}

#[test]
fn crop_equal_bounds_is_empty() {
    let src = gradient(8, 8);
    assert!(crop_pixels(&src, 8, 8, 300_000, 0, 300_000, RATIO_ONE).is_empty());
    assert!(crop_pixels(&src, 8, 8, 0, 500_000, RATIO_ONE, 500_000).is_empty());
    assert_eq!(get_cropped_dimensions(8, 8, 300_000, 0, 300_000, RATIO_ONE), vec![0, 0]);
}

#[test]
fn crop_bounds_equal_after_clamping_is_empty() {
    let src = gradient(8, 8);
    assert!(crop_pixels(&src, 8, 8, 1_500_000, 0, 2_000_000, RATIO_ONE).is_empty());
    assert!(crop_pixels(&src, 8, 8, 0, -5, RATIO_ONE, -1).is_empty());
}

#[test]
fn crop_clamps_out_of_range_bounds() {
    let src = gradient(4, 4);
    let out = crop_pixels(&src, 4, 4, -300, -1, 5_000_000, 2 * RATIO_ONE);
    assert_eq!(out, src);
}

#[test]
fn crop_window_that_rounds_to_nothing_is_empty() {
    let src = gradient(2, 2);
    assert!(crop_pixels(&src, 2, 2, 0, 0, 100_000, RATIO_ONE).is_empty());
    assert_eq!(get_cropped_dimensions(2, 2, 0, 0, 100_000, RATIO_ONE), vec![0, 2]);
}

#[test]
fn crop_rounds_half_away_from_zero() {
    let src = gradient(3, 1);
    assert_eq!(get_cropped_dimensions(3, 1, 0, 0, 500_000, RATIO_ONE), vec![2, 1]);
    let out = crop_pixels(&src, 3, 1, 500_000, 0, RATIO_ONE, RATIO_ONE);
    assert_eq!(out, pixel(&src, 3, 2, 0));
}

#[test]
fn crop_rejects_mismatched_buffer() {
    let src = gradient(4, 4);
    assert!(crop_pixels(&src[..src.len() - 1], 4, 4, 0, 0, RATIO_ONE, RATIO_ONE).is_empty());
    assert!(crop_pixels(&src, 5, 4, 0, 0, RATIO_ONE, RATIO_ONE).is_empty());
}

#[test]
fn rotate_dimensions_of_four_by_two() {
    assert_eq!(get_rotated_dimensions(4, 2, 90), vec![2, 4]);
    assert_eq!(get_rotated_dimensions(4, 2, -90), vec![2, 4]);
    assert_eq!(get_rotated_dimensions(4, 2, 180), vec![4, 2]);
    assert_eq!(get_rotated_dimensions(4, 2, 45), vec![4, 2]);
    let d = get_rotated_dimensions(4, 2, 90);
    assert_eq!(get_rotated_dimensions(d[0], d[1], -90), vec![4, 2]);
}

#[test]
fn rotate_quarter_turn_moves_pixels() {
    let src = gradient(4, 2);
    let out = rotate_pixels(&src, 4, 2, 90);
    assert_eq!(out.len(), src.len());
    // (x, y) goes to (height - 1 - y, x) in a 2-wide image.
    for y in 0..2 {
        for x in 0..4 {
            assert_eq!(pixel(&out, 2, 2 - 1 - y, x), pixel(&src, 4, x, y));
        }
    }
}

#[test]
fn rotate_left_and_half_turn_move_pixels() {
    let src = gradient(4, 2);
    let left = rotate_pixels(&src, 4, 2, -90);
    let half = rotate_pixels(&src, 4, 2, 180);
    for y in 0..2 {
        for x in 0..4 {
            assert_eq!(pixel(&left, 2, y, 4 - 1 - x), pixel(&src, 4, x, y));
            assert_eq!(pixel(&half, 4, 4 - 1 - x, 2 - 1 - y), pixel(&src, 4, x, y));
        }
    }
}

#[test]
fn rotate_right_then_left_restores() {
    let src = gradient(4, 2);
    let right = rotate_pixels(&src, 4, 2, 90);
    let back = rotate_pixels(&right, 2, 4, -90);
    assert_eq!(back, src);
}

#[test]
fn rotate_other_angle_is_identity() {
    let src = gradient(3, 2);
    assert_eq!(rotate_pixels(&src, 3, 2, 45), src);
    assert_eq!(rotate_pixels(&src, 3, 2, 0), src);
}

#[test]
fn rotate_rejects_mismatched_buffer() {
    let src = gradient(4, 2);
    assert!(rotate_pixels(&src[..5], 4, 2, 90).is_empty());
    assert!(rotate_pixels(&src, 4, 3, 180).is_empty());
    assert!(rotate_pixels(&[], 1, 1, 90).is_empty());
}

#[test]
fn rotate_empty_image() {
    assert!(rotate_pixels(&[], 0, 5, 90).is_empty());
    assert_eq!(get_rotated_dimensions(0, 5, 90), vec![5, 0]);
}
