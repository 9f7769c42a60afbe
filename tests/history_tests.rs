use image_edit_rmcp::history::{list_settings, record_files_newest_first, record_selected, RecordListing};
use image_edit_rmcp::records::AiImageRecord;
use image_edit_rmcp::tools::ToolError;

fn names(list: &[&str]) -> Vec<String> {
    list.iter().map(|s| s.to_string()).collect()
}

#[test]
fn record_files_sorted_newest_first() {
    let input = names(&[
        "2026-01-02T03-04-05_aa.json",
        "notes.txt",
        "2026-03-01T00-00-00_bb.json",
        ".json",
        "2025-12-31T23-59-59_cc.json",
        "2026-01-02T03-04-05_ab.json",
    ]);
    let out = record_files_newest_first(input);
    assert_eq!(
        out,
        names(&[
            "2026-03-01T00-00-00_bb.json",
            "2026-01-02T03-04-05_ab.json",
            "2026-01-02T03-04-05_aa.json",
            "2025-12-31T23-59-59_cc.json",
        ])
    );
}

#[test]
fn record_files_of_nothing() {
    assert!(record_files_newest_first(vec![]).is_empty());
    assert!(record_files_newest_first(names(&["a.jsonx", "json"])).is_empty());
}

#[test]
fn listing_settings() {
    assert_eq!(list_settings(None, None), Ok((10, "all".to_string())));
    assert_eq!(list_settings(Some(0), Some(" edited ")), Ok((1, "edited".to_string())));
    assert_eq!(list_settings(Some(3), Some("generated")), Ok((3, "generated".to_string())));
    assert!(matches!(list_settings(None, Some("cropped")), Err(ToolError::InvalidParams(_))));
}

#[test]
fn listing_filter() {
    assert!(record_selected("all", "edited"));
    assert!(record_selected("edited", "edited"));
    assert!(!record_selected("generated", "edited"));
}

fn record(kind: &str, url: &str) -> AiImageRecord {
    AiImageRecord {
        image_url: url.to_string(),
        image_type: kind.to_string(),
        prompt: "p".to_string(),
        negative_prompt: None,
        aspect_ratio: None,
        resolution: None,
        steps: None,
        source_image_url: None,
        created_at: "t".to_string(),
    }
}

#[test]
fn listing_keeps_filtered_records_up_to_limit() {
    let mut listing = RecordListing::new(2, "edited".to_string());
    assert!(!listing.is_full());
    listing.offer(record("generated", "a"));
    listing.offer(record("edited", "b"));
    assert!(!listing.is_full());
    listing.offer(record("edited", "c"));
    assert!(listing.is_full());
    listing.offer(record("edited", "d"));
    let urls: Vec<&str> = listing.found.iter().map(|r| r.image_url.as_str()).collect();
    assert_eq!(urls, vec!["b", "c"]);
}

#[test]
fn listing_of_all_types() {
    let mut listing = RecordListing::new(10, "all".to_string());
    listing.offer(record("generated", "a"));
    listing.offer(record("edited", "b"));
    assert_eq!(listing.found.len(), 2);
}
