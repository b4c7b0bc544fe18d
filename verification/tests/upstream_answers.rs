use gh_sync::runner::GhOutput;
use gh_sync::upstream::{
    blob_entries, fetch_outcome, tag_sha_outcome, tree_listing_outcome, upstream_config_text,
    FetchResult, RemoteTreeEntry,
};

fn output(code: i32, stdout: &[u8], stderr: &[u8]) -> GhOutput {
    GhOutput {
        exit_code: Some(code),
        stdout: stdout.to_vec(),
        stderr: stderr.to_vec(),
    }
}

#[test]
fn fetch_outcome_returns_content_on_success() {
    let r = fetch_outcome(output(0, b"raw bytes", b"")).unwrap();
    assert_eq!(r, FetchResult::Content(b"raw bytes".to_vec()));
}

#[test]
fn fetch_outcome_maps_http_404_to_not_found() {
    let r = fetch_outcome(output(1, b"", b"gh: Not Found (HTTP 404)")).unwrap();
    assert_eq!(r, FetchResult::NotFound);
}

#[test]
fn fetch_outcome_other_failure_is_error() {
    let err = fetch_outcome(output(1, b"", b"HTTP 500")).unwrap_err();
    assert_eq!(err.to_string(), "`gh api` failed: HTTP 500");
}

#[test]
fn tag_sha_outcome_trims_sha() {
    let sha = tag_sha_outcome(&output(0, b"  0123abcd\n", b"")).unwrap();
    assert_eq!(sha, "0123abcd");
}

#[test]
fn tag_sha_outcome_reports_failure() {
    let err = tag_sha_outcome(&output(2, b"", b"no such tag")).unwrap_err();
    assert_eq!(err.to_string(), "`gh api` failed: no such tag");
}

#[test]
fn tree_listing_outcome_checks_exit_code() {
    assert!(tree_listing_outcome(&output(0, b"{}", b"")).is_ok());
    assert!(tree_listing_outcome(&output(1, b"", b"x")).is_err());
}

fn entry(path: &str, type_: &str) -> RemoteTreeEntry {
    RemoteTreeEntry {
        path: path.to_owned(),
        type_: type_.to_owned(),
    }
}

#[test]
fn blob_entries_keeps_only_files_in_order() {
    let files = blob_entries(
        "o/r",
        false,
        vec![entry("a", "blob"), entry("dir", "tree"), entry("dir/b", "blob")],
    )
    .unwrap();
    let paths: Vec<&str> = files.iter().map(|e| e.path.as_str()).collect();
    assert_eq!(paths, vec!["a", "dir/b"]);
}

#[test]
fn blob_entries_rejects_truncated_listing() {
    let err = blob_entries("o/r", true, vec![entry("a", "blob")]).unwrap_err();
    assert_eq!(
        err.to_string(),
        "repository 'o/r' has too many files; the tree response was truncated"
    );
}

#[test]
fn upstream_config_text_missing_config() {
    let err = upstream_config_text("owner/repo", FetchResult::NotFound).unwrap_err();
    assert!(err.to_string().contains("does not have a gh-sync config"));
    assert!(err.to_string().contains("--select"));
}

#[test]
fn upstream_config_text_decodes_utf8() {
    let text = upstream_config_text("o/r", FetchResult::Content("upstream: é\n".as_bytes().to_vec()))
        .unwrap();
    assert_eq!(text, "upstream: é\n");
}

#[test]
fn upstream_config_text_rejects_invalid_utf8() {
    let err = upstream_config_text("o/r", FetchResult::Content(vec![0x66, 0xff])).unwrap_err();
    assert_eq!(err.to_string(), "upstream config contains non-UTF-8 bytes");
    assert!(err.full_message().starts_with("upstream config contains non-UTF-8 bytes: "));
}

const VALID_CONFIG: &str =
    "upstream:\n  repo: owner/repo\nfiles:\n  - path: foo.txt\n    strategy: replace\n";

#[test]
fn returns_content_with_schema_comment() {
    let text = upstream_config_text(
        "owner/repo",
        FetchResult::Content(VALID_CONFIG.as_bytes().to_vec()),
    )
    .unwrap();
    let result = gh_sync::init::with_schema_comment(&text);
    assert!(result.starts_with("# yaml-language-server"));
    assert!(result.contains("upstream:"));
}

#[test]
fn errors_on_not_found() {
    let err = upstream_config_text("owner/repo", FetchResult::NotFound).unwrap_err();
    assert!(err.to_string().contains("does not have a gh-sync config"));
    assert!(err.to_string().contains("--select"));
}
