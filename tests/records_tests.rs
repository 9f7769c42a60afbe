use image_edit_rmcp::keyer::compute_hash;
use image_edit_rmcp::modelscope::{
    build_image_description_prompt, chat_reply_text, describe_reply, description_from_reply, strip_json_fences, IMAGE_DESCRIPTION_PROMPT,
};
use image_edit_rmcp::records::{ai_record_key, generation_dimensions, size_text, AiImageRecord, GenerateImageRequest};
use image_edit_rmcp::tools::ToolError;
use image_edit_rmcp::web::{
    cache_base_url, check_upload, choose_cache_dir, extension_from_filename, resolve_extension, upload_key, UploadError,
};

fn gen(aspect: Option<&str>, resolution: Option<&str>) -> GenerateImageRequest {
    GenerateImageRequest {
        prompt: "p".to_string(),
        negative_prompt: None,
        aspect_ratio: aspect.map(str::to_string),
        resolution: resolution.map(str::to_string),
        steps: None,
    }
}

#[test]
fn generation_sizes() {
    assert_eq!(generation_dimensions(&gen(None, None)), Ok((1024, 1024)));
    assert_eq!(generation_dimensions(&gen(Some("16:9"), Some("2k"))), Ok((2048, 1152)));
    assert_eq!(generation_dimensions(&gen(Some("9:16"), Some("1k"))), Ok((576, 1024)));
    assert_eq!(generation_dimensions(&gen(Some(" 3:2 "), Some("1K"))), Ok((1024, 683)));
    assert_eq!(generation_dimensions(&gen(Some("2:3"), Some("4k"))), Ok((1365, 2048)));
    assert_eq!(generation_dimensions(&gen(Some("4:3"), None)), Ok((1024, 768)));
    assert!(matches!(generation_dimensions(&gen(Some("5:4"), None)), Err(ToolError::InvalidParams(_))));
    assert!(matches!(generation_dimensions(&gen(None, Some("8k"))), Err(ToolError::InvalidParams(_))));
    assert_eq!(size_text(2048, 1152), "2048x1152");
}

#[test]
fn ai_record_key_sorts_by_time() {
    let record = AiImageRecord {
        image_url: "https://img/1.png".to_string(),
        image_type: "generated".to_string(),
        prompt: "a cat".to_string(),
        negative_prompt: None,
        aspect_ratio: None,
        resolution: None,
        steps: Some(9),
        source_image_url: None,
        created_at: "2026-01-02T03:04:05+00:00".to_string(),
    };
    let hash = compute_hash("generated:https://img/1.png:a cat");
    assert_eq!(ai_record_key(&record), format!("ai_images/2026-01-02T03-04-05+00-00_{hash}.json"));
}

#[test]
fn strips_code_fences() {
    assert_eq!(strip_json_fences("```json\n[1, 2, 3, 4]\n```"), "[1, 2, 3, 4]");
    assert_eq!(strip_json_fences("  {\"a\": 1}  "), "{\"a\": 1}");
    assert_eq!(strip_json_fences("```\n{\"bbox\": [1]}"), "{\"bbox\": [1]}");
    assert_eq!(strip_json_fences("``````jsonjson x ``` y ```"), "x ``` y");
}

#[test]
fn description_prompt_with_and_without_focus() {
    assert_eq!(build_image_description_prompt(None), IMAGE_DESCRIPTION_PROMPT);
    assert_eq!(build_image_description_prompt(Some("  ")), IMAGE_DESCRIPTION_PROMPT);
    let focused = build_image_description_prompt(Some("红色的车"));
    assert!(focused.contains("【特别关注】：红色的车\n\n"));
    assert!(focused.ends_with("请只返回JSON，不要包含其他文字。"));
}

#[test]
fn chat_reply_handling() {
    assert_eq!(chat_reply_text(Some("quota".to_string()), Some("x".to_string())), Err("quota".to_string()));
    assert_eq!(chat_reply_text(None, Some("  text \n".to_string())), Ok("text".to_string()));
    assert!(chat_reply_text(None, None).is_err());
    assert_eq!(
        description_from_reply("raw", Some(" Cat "), Some(" A cat. ")),
        ("Cat".to_string(), "A cat.".to_string())
    );
    assert_eq!(description_from_reply("raw", Some(""), Some("x")), ("fetched-image".to_string(), "raw".to_string()));
}

#[test]
fn upload_extensions() {
    assert_eq!(extension_from_filename("photo.PNG"), Some("png".to_string()));
    assert_eq!(extension_from_filename("archive.tar.gz"), Some("gz".to_string()));
    assert_eq!(extension_from_filename("noext"), None);
    assert_eq!(extension_from_filename("trailing."), None);
    assert_eq!(resolve_extension("photo", Some("image/JPEG")), "jpg");
    assert_eq!(resolve_extension("photo", Some("application/x-thing")), "bin");
    assert_eq!(resolve_extension("photo.Webp", Some("image/png")), "webp");
    assert_eq!(resolve_extension("photo", None), "bin");
}

#[test]
fn upload_checks() {
    assert_eq!(check_upload(Some("text/plain"), Some("a.txt"), Some(3)), Err(UploadError::UnsupportedType));
    assert_eq!(check_upload(Some("image/png"), None, None), Err(UploadError::MissingFile));
    assert_eq!(check_upload(None, Some("a"), Some(0)), Err(UploadError::EmptyFile));
    assert_eq!(check_upload(Some("image/png"), Some("a.png"), Some(10)), Ok(()));
}

#[test]
fn upload_keys() {
    let hash = compute_hash("upload:123:cat.png:42");
    assert_eq!(upload_key(123, "cat.png", 42, "png"), format!("uploads/{hash}.png"));
}

#[test]
fn cache_base_urls() {
    assert_eq!(cache_base_url(Some(" https://cdn.x.com/ "), None, "0.0.0.0:3000"), "https://cdn.x.com/cache");
    assert_eq!(cache_base_url(Some("  "), Some("x.com/"), "0.0.0.0:3000"), "http://x.com/cache");
    assert_eq!(cache_base_url(None, Some("http://http://x.com"), "b"), "http://x.com/cache");
    assert_eq!(cache_base_url(None, None, "0.0.0.0:3000"), "http://0.0.0.0:3000/cache");
    assert_eq!(cache_base_url(None, Some(""), "https://https://h"), "https://h/cache");
}

#[test]
fn cache_dirs() {
    assert_eq!(choose_cache_dir(Some("/data/cache"), Some("/home/u/.cache")), "/data/cache");
    assert_eq!(choose_cache_dir(Some(" "), Some("/home/u/.cache")), "/home/u/.cache/image-edit-rmcp");
    assert_eq!(choose_cache_dir(None, None), "./image-edit-rmcp");
}

#[test]
fn description_reply_fields() {
    assert_eq!(
        describe_reply("{\"name\": \" 校园 \", \"description\": \"一张图\"}"),
        ("校园".to_string(), "一张图".to_string())
    );
    assert_eq!(describe_reply("{\"name\": \"x\"}"), ("fetched-image".to_string(), "{\"name\": \"x\"}".to_string()));
    assert_eq!(describe_reply("plain text"), ("fetched-image".to_string(), "plain text".to_string()));
    assert_eq!(
        describe_reply("{\"name\": 3, \"description\": \"d\"}"),
        ("fetched-image".to_string(), "{\"name\": 3, \"description\": \"d\"}".to_string())
    );
}
