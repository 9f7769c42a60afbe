use image_edit_rmcp::keyer::compute_hash;
use image_edit_rmcp::store::{classify_probe, classify_read, normalize_url_scheme, IoFailure, LocalFileStorage, StoreError};

fn storage(dir: &str, url: &str) -> LocalFileStorage {
    LocalFileStorage::new(dir.to_string(), url.to_string())
}

#[test]
fn hash_is_sha256_hex() {
    assert_eq!(compute_hash("abc"), "ba7816bf8f01cfea414140de5dae2223b00361a396177a9cb410ff61f20015ad");
    assert_eq!(compute_hash(""), "e3b0c44298fc1c149afbf4c8996fb92427ae41e4649b934ca495991b7852b855");
}

#[test]
fn hash_is_deterministic() {
    let a = compute_hash("crop:http://x.com/a.png:1:2:3:4");
    let b = compute_hash("crop:http://x.com/a.png:1:2:3:4");
    assert_eq!(a, b);
    assert_eq!(a.len(), 64);
    assert!(a.chars().all(|c| c.is_ascii_hexdigit() && !c.is_ascii_uppercase()));
}

#[test]
fn hash_keys_by_exact_text() {
    assert_ne!(compute_hash("crop:u:50"), compute_hash("crop:u:50.0"));
}

#[test]
fn public_url_collapses_doubled_scheme() {
    let s = storage("/tmp/cache", "http://http://x.com/");
    assert_eq!(s.get_public_url("a"), "http://x.com/a");
}

#[test]
fn public_url_trims_slashes() {
    let s = storage("/tmp/cache", "https://cdn.example.com/cache///");
    assert_eq!(s.get_public_url("//images/abc/meta.json"), "https://cdn.example.com/cache/images/abc/meta.json");
}

#[test]
fn public_url_cross_scheme_doubles() {
    assert_eq!(storage("d", "http://https://x.com").get_public_url("k"), "https://x.com/k");
    assert_eq!(storage("d", "https://http://x.com").get_public_url("k"), "http://x.com/k");
    assert_eq!(storage("d", "https://https://https://x.com").get_public_url("k"), "https://x.com/k");
}

#[test]
fn normalization_is_idempotent() {
    for s in [
        "http://http://x.com",
        "https://http://https://x.com",
        "http://https://http://x.com",
        "x.com",
        "https://x.com",
        "",
    ] {
        let once = normalize_url_scheme(s);
        let twice = normalize_url_scheme(&once);
        assert_eq!(once, twice);
    }
    assert_eq!(normalize_url_scheme("https://http://https://x.com"), "https://x.com");
}

#[test]
fn key_builders_fix_layout() {
    assert_eq!(LocalFileStorage::get_image_prefix("abc"), "images/abc");
    assert_eq!(LocalFileStorage::get_meta_key("images/abc"), "images/abc/meta.json");
    assert_eq!(LocalFileStorage::get_original_key("images/abc", "png"), "images/abc/original.png");
    assert_eq!(LocalFileStorage::get_result_key("processed/abc", "png"), "processed/abc/result.png");
}

#[test]
fn resolve_path_joins_under_base() {
    assert_eq!(storage("/var/cache", "u").resolve_path("/images/a/meta.json"), "/var/cache/images/a/meta.json");
    assert_eq!(storage("/var/cache/", "u").resolve_path("a"), "/var/cache/a");
    assert_eq!(storage("", "u").resolve_path("//a"), "a");
}

#[test]
fn read_of_missing_file_is_a_miss() {
    assert_eq!(classify_read(Err(IoFailure::NotFound)), Ok(None));
}

#[test]
fn read_returns_bytes_unchanged() {
    let bytes = vec![0u8, 1, 2, 255];
    assert_eq!(classify_read(Ok(bytes.clone())), Ok(Some(bytes)));
}

#[test]
fn read_failure_is_an_error() {
    assert_eq!(
        classify_read(Err(IoFailure::Other("denied".to_string()))),
        Err(StoreError::Io("denied".to_string()))
    );
}

#[test]
fn probe_outcomes() {
    assert_eq!(classify_probe(Ok(())), Ok(true));
    assert_eq!(classify_probe(Err(IoFailure::NotFound)), Ok(false));
    assert_eq!(classify_probe(Err(IoFailure::Other("x".to_string()))), Err(StoreError::Io("x".to_string())));
}
