use image_edit_rmcp::codec::{decode_image, encode_png};
use image_edit_rmcp::keyer::compute_hash;
use image_edit_rmcp::pipeline::{crop_box_pixels, process_crop, process_rotate, resolve_mime};
use image_edit_rmcp::tools::{
    check_ocr_urls, fetched_labels, plan_crop, plan_fetch, plan_ocr, plan_rotate, validate_http_url, CropImageRequest,
    FetchImageRequest, RotateDirection, RotateImageRequest, ToolError,
};

fn crop_request(url: &str, x1: u32, y1: u32, x2: u32, y2: u32) -> CropImageRequest {
    CropImageRequest { image_url: url.to_string(), x1, y1, x2, y2 }
}

fn gradient(width: u32, height: u32) -> Vec<u8> {
    let mut out = Vec::new();
    for y in 0..height {
        for x in 0..width {
            out.extend_from_slice(&[x as u8, y as u8, 7, 255]);
        }
    }
    out
}

#[test]
fn validates_http_urls() {
    assert_eq!(validate_http_url("  https://Example.com/a.png "), Ok("https://example.com/a.png".to_string()));
    assert_eq!(validate_http_url("http://x.com"), Ok("http://x.com/".to_string()));
    assert!(matches!(validate_http_url(""), Err(ToolError::InvalidParams(_))));
    assert!(matches!(validate_http_url("   "), Err(ToolError::InvalidParams(_))));
    assert!(matches!(validate_http_url("not a url"), Err(ToolError::InvalidParams(_))));
    assert!(matches!(validate_http_url("ftp://x.com/a.png"), Err(ToolError::InvalidParams(_))));
    assert!(matches!(validate_http_url("file:///etc/passwd"), Err(ToolError::InvalidParams(_))));
}

#[test]
fn crop_plan_keys_by_url_and_box() {
    let plan = plan_crop(&crop_request("http://x.com/a.png", 1, 20, 300, 999)).unwrap();
    assert_eq!(plan.cache_key_input, "crop:http://x.com/a.png:1:20:300:999");
    assert_eq!(plan.hash, compute_hash("crop:http://x.com/a.png:1:20:300:999"));
    assert_eq!(plan.prefix, format!("processed/{}", plan.hash));
    assert_eq!(plan.meta_key, format!("processed/{}/meta.json", plan.hash));
    assert_eq!(plan.result_key, format!("processed/{}/result.png", plan.hash));
}

#[test]
fn crop_plan_rejects_bad_input() {
    assert_eq!(
        plan_crop(&crop_request("http://x.com/a.png", 0, 0, 1000, 5)).err(),
        Some(ToolError::InvalidParams("coordinates must be within [0, 999]".to_string()))
    );
    assert!(matches!(plan_crop(&crop_request("mailto:a@b.c", 0, 0, 10, 5)), Err(ToolError::InvalidParams(_))));
}

#[test]
fn rotate_plan_keys_by_direction() {
    let req = RotateImageRequest { url: "http://x.com/a.png".to_string(), direction: RotateDirection::Left90 };
    let plan = plan_rotate(&req);
    assert_eq!(plan.cache_key_input, "rotate:http://x.com/a.png:left_90");
    assert_eq!(plan.result_key, format!("processed/{}/result.png", compute_hash("rotate:http://x.com/a.png:left_90")));
    assert_eq!(RotateDirection::Right90.angle(), 90);
    assert_eq!(RotateDirection::Left90.angle(), -90);
    assert_eq!(RotateDirection::Flip180.angle(), 180);
    assert_eq!(RotateDirection::Flip180.token(), "flip_180");
}

#[test]
fn fetch_plan_uses_trimmed_focus() {
    let with = FetchImageRequest { url: "http://x.com/a".to_string(), focus: Some("  the cat ".to_string()) };
    let plan = plan_fetch(&with).unwrap();
    assert_eq!(plan.cache_key_input, "http://x.com/a::the cat");
    assert_eq!(plan.meta_key, format!("images/{}/meta.json", compute_hash("http://x.com/a::the cat")));
    let blank = FetchImageRequest { url: "http://x.com/a".to_string(), focus: Some("   ".to_string()) };
    assert_eq!(plan_fetch(&blank).unwrap().cache_key_input, "http://x.com/a");
    let none = FetchImageRequest { url: "http://x.com/a".to_string(), focus: None };
    assert_eq!(plan_fetch(&none).unwrap().cache_key_input, "http://x.com/a");
}

#[test]
fn ocr_plan_keys_text() {
    let plan = plan_ocr("https://x.com/doc.png").unwrap();
    assert_eq!(plan.cache_key_input, "ocr:https://x.com/doc.png");
    assert_eq!(plan.result_key, format!("ocr/{}/ocr.txt", compute_hash("ocr:https://x.com/doc.png")));
    assert!(plan_ocr("javascript:alert(1)").is_err());
}

#[test]
fn mime_falls_back_to_header() {
    assert_eq!(resolve_mime(b"GIF89a", Some("image/png")), Some("image/gif".to_string()));
    assert_eq!(resolve_mime(b"????", Some(" image/jpeg ; charset=x")), Some("image/jpeg".to_string()));
    assert_eq!(resolve_mime(b"????", None), None);
}

#[test]
fn crop_box_scales_per_mille() {
    let src = gradient(10, 10);
    let (out, w, h) = crop_box_pixels(&src, 10, 10, 500, 900, 200, 300).unwrap();
    assert_eq!((w, h), (3, 6));
    assert_eq!(&out[0..4], &[2, 3, 7, 255]);
    assert!(matches!(crop_box_pixels(&src, 10, 10, 100, 100, 150, 500), Err(ToolError::InvalidParams(_))));
    assert!(matches!(crop_box_pixels(&src[1..], 10, 10, 0, 0, 999, 999), Err(ToolError::Internal(_))));
}

#[test]
fn crop_pipeline_produces_png() {
    let src = gradient(10, 10);
    let png = encode_png(&src, 10, 10).unwrap();
    let out = process_crop(&png, None, 0, 0, 500, 500).unwrap();
    let (pixels, w, h) = decode_image(&out, "image/png").unwrap();
    assert_eq!((w, h), (5, 5));
    assert_eq!(&pixels[0..4], &src[0..4]);
    assert!(matches!(process_crop(b"junk", None, 0, 0, 500, 500), Err(ToolError::Internal(_))));
    assert!(matches!(process_crop(b"junk", Some("image/png"), 0, 0, 500, 500), Err(ToolError::Internal(_))));
    assert!(matches!(process_crop(&png, None, 0, 0, 0, 500), Err(ToolError::InvalidParams(_))));
}

#[test]
fn rotate_pipeline_produces_png() {
    let src = gradient(4, 2);
    let png = encode_png(&src, 4, 2).unwrap();
    let out = process_rotate(&png, Some("image/png"), RotateDirection::Right90).unwrap();
    let (pixels, w, h) = decode_image(&out, "image/png").unwrap();
    assert_eq!((w, h), (2, 4));
    // source (0, 0) lands at (height - 1, 0) = (1, 0)
    assert_eq!(&pixels[4..8], &src[0..4]);
    assert!(process_rotate(b"abc", Some("text/html"), RotateDirection::Flip180).is_err());
}

#[test]
fn fetched_labels_defaults_and_overrides() {
    let (n, t, d) = fetched_labels(None);
    assert_eq!((n.as_str(), t.as_str(), d.as_str()), ("fetched-image", "Fetched Image", "请分析图片内容。"));
    let (n, t, d) = fetched_labels(Some((" Cat ".to_string(), "  ".to_string())));
    assert_eq!((n.as_str(), t.as_str(), d.as_str()), ("Cat", "Cat", "请分析图片内容。"));
}

#[test]
fn ocr_request_needs_urls() {
    assert_eq!(check_ocr_urls(&vec![]), Err(ToolError::InvalidParams("urls不能为空".to_string())));
    assert_eq!(check_ocr_urls(&vec!["http://x.com/a.png".to_string()]), Ok(()));
}
