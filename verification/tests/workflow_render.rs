use gh_sync::workflow::{render, TEMPLATE};

// a 40-character hexadecimal commit SHA
const TEST_SHA: &str = "aabbccdd1122334455667788990011223344556677";

#[test]
fn render_substitutes_version_and_sha() {
    let out = render("v1.2.3", TEST_SHA, None);
    assert!(
        out.contains(&format!("naa0yama/gh-sync@{TEST_SHA} # v1.2.3")),
        "expected SHA-pinned ref, got: {out}"
    );
    assert!(!out.contains("{{version}}"), "version placeholder not replaced");
    assert!(!out.contains("{{sha}}"), "sha placeholder not replaced");
}

#[test]
fn render_sha_is_40_hex_and_no_zizmor_ignore() {
    let sha = "93c2233ddf30c32021dd373d677d2575798f5eac";
    let out = render("v0.1.3", sha, None);
    assert!(out.contains(sha), "SHA missing from output");
    assert!(
        !out.contains("zizmor: ignore"),
        "unexpected zizmor: ignore comment in output"
    );
}

#[test]
fn render_contains_required_fields() {
    let out = render("v0.1.0", TEST_SHA, None);
    assert!(out.contains("name: gh-sync"), "wrong workflow name");
    assert!(out.contains("actions/checkout@"), "missing checkout step");
    assert!(out.contains("secrets.GITHUB_TOKEN"), "missing token ref");
    assert!(out.contains("contents: write"), "missing contents: write");
    assert!(
        out.contains("pull-requests: write"),
        "missing pull-requests: write"
    );
    assert!(
        out.contains("apply-files: \"true\""),
        "missing apply-files input"
    );
    assert!(
        out.contains("version: v0.1.0"),
        "missing explicit version input"
    );
    assert!(out.contains("gh-sync pr"), "missing gh-sync pr step");
}

#[test]
fn render_triggers_are_schedule_and_dispatch_only() {
    let out = render("v0.1.0", TEST_SHA, None);
    assert!(out.contains("schedule:"), "missing schedule trigger");
    assert!(
        out.contains("workflow_dispatch:"),
        "missing workflow_dispatch trigger"
    );
    assert!(
        !out.contains("pull_request:"),
        "pull_request trigger must not appear"
    );
    assert!(!out.contains("push:"), "push trigger must not appear");
}

#[test]
fn render_with_upstream_manifest_emits_active_line() {
    let out = render(
        "v0.1.0",
        TEST_SHA,
        Some("owner/repo@main:.github/gh-sync/config.yaml"),
    );
    assert!(
        out.contains("upstream-manifest: owner/repo@main:.github/gh-sync/config.yaml"),
        "missing upstream-manifest line: {out}"
    );
    assert!(
        !out.contains("{{upstream_manifest_line}}"),
        "placeholder not replaced: {out}"
    );
}

#[test]
fn render_without_upstream_manifest_emits_comment() {
    let out = render("v0.1.0", TEST_SHA, None);
    assert!(
        out.contains("# upstream-manifest: owner/repo@main:.github/gh-sync/config.yaml"),
        "missing comment placeholder: {out}"
    );
    assert!(
        !out.contains("{{upstream_manifest_line}}"),
        "placeholder not replaced: {out}"
    );
}

#[test]
fn render_keeps_github_expressions_and_pins_version_twice() {
    let out = render("v9.9.9", "abc", None);
    assert!(out.contains("token: ${{ secrets.GITHUB_TOKEN }}"));
    assert!(out.contains("naa0yama/gh-sync@abc # v9.9.9\n"));
    assert!(out.contains("          version: v9.9.9\n"));
    assert_eq!(out.matches("v9.9.9").count(), 2);
}

#[test]
fn render_replaces_like_str_replace() {
    let template_out = render("{{sha}}", "S", None);
    // The version is substituted first, so a version that looks like the sha
    // placeholder is itself replaced by the sha.
    assert!(template_out.contains("naa0yama/gh-sync@S # S"));
}

#[test]
fn render_changes_nothing_but_the_placeholders() {
    let out = render("v1.0.0", "abc", Some("o/r@main:c.yaml"));
    let (head, _) = TEMPLATE.split_once("{{sha}}").unwrap();
    let pieces: Vec<&str> = TEMPLATE.split("{{version}}").collect();
    assert_eq!(pieces.len(), 3);
    let (_, tail) = TEMPLATE.split_once("{{upstream_manifest_line}}").unwrap();
    let expected = format!(
        "{head}abc # v1.0.0{}v1.0.0\n          upstream-manifest: o/r@main:c.yaml{tail}",
        pieces[1]
    );
    assert_eq!(out, expected);
}
