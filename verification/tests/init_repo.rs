use gh_sync::init::{is_valid_repo, validate_repo_format};

#[test]
fn valid_repo_accepts_owner_slash_name() {
    assert!(is_valid_repo("owner/repo"));
    assert!(is_valid_repo("naa0yama/boilerplate-rust"));
    assert!(is_valid_repo("my.org/my_repo-name"));
}

#[test]
fn valid_repo_rejects_missing_slash() {
    assert!(!is_valid_repo("no-slash"));
    assert!(!is_valid_repo(""));
}

#[test]
fn valid_repo_rejects_multiple_slashes() {
    assert!(!is_valid_repo("owner/name/extra"));
}

#[test]
fn valid_repo_rejects_empty_segments() {
    assert!(!is_valid_repo("/name"));
    assert!(!is_valid_repo("owner/"));
}

#[test]
fn valid_repo_rejects_disallowed_characters() {
    assert!(!is_valid_repo("own er/repo"));
    assert!(!is_valid_repo("owner/re:po"));
    assert!(!is_valid_repo("ownér/repo"));
    assert!(is_valid_repo("A-Z.0_9/a"));
}

#[test]
fn validate_repo_format_accepts_valid_name() {
    assert!(validate_repo_format("owner/repo").is_ok());
}

#[test]
fn validate_repo_format_error_names_the_repo() {
    let err = validate_repo_format("bad").unwrap_err();
    assert_eq!(
        err.to_string(),
        "invalid repository 'bad': must be owner/name format (e.g. naa0yama/boilerplate-rust)"
    );
}
