use gh_sync::init::{diff_display_line, overwrite_diff};
use gh_sync::init::{
    check_existing_output, choose_mode, choose_repo, compare_for_overwrite, mode_from_index,
    overwrite_needs_check, upstream_manifest_ref, with_schema_comment, InitMode, ModeChoice,
    OutputCheck, OverwriteAnswer, RepoChoice,
};

#[test]
fn existing_output_proceeds_when_absent_or_forced() {
    assert!(matches!(check_existing_output("c.yaml", false, false, false), OutputCheck::Proceed));
    assert!(matches!(check_existing_output("c.yaml", true, true, false), OutputCheck::Proceed));
}

#[test]
fn existing_output_asks_on_a_terminal() {
    assert!(matches!(check_existing_output("c.yaml", true, false, true), OutputCheck::Confirm));
}

#[test]
fn existing_output_refused_without_terminal() {
    match check_existing_output("c.yaml", true, false, false) {
        OutputCheck::Refuse(e) => {
            assert_eq!(e.to_string(), "'c.yaml' already exists; use --force to overwrite")
        }
        other => panic!("unexpected {other:?}"),
    }
}

#[test]
fn choose_repo_validates_given_name() {
    assert!(matches!(choose_repo(Some("o/r"), false), Ok(RepoChoice::Given(ref r)) if r == "o/r"));
    let err = choose_repo(Some("o/r/x"), true).unwrap_err();
    assert!(err.to_string().starts_with("invalid repository 'o/r/x'"));
}

#[test]
fn choose_repo_prompts_or_requires_flag() {
    assert!(matches!(choose_repo(None, true), Ok(RepoChoice::Prompt)));
    let err = choose_repo(None, false).unwrap_err();
    assert_eq!(
        err.to_string(),
        "--repo is required in non-interactive mode\nexample: gh-sync init --repo owner/name --from-upstream"
    );
}

#[test]
fn choose_mode_prefers_flags() {
    assert!(matches!(choose_mode(true, false, false), Ok(ModeChoice::Chosen(InitMode::FromUpstream))));
    assert!(matches!(choose_mode(false, true, false), Ok(ModeChoice::Chosen(InitMode::Select))));
    assert!(matches!(choose_mode(false, false, true), Ok(ModeChoice::Prompt)));
    let err = choose_mode(false, false, false).unwrap_err();
    assert!(err.to_string().starts_with("no mode specified; use --from-upstream or --select"));
}

#[test]
fn mode_from_index_maps_prompt_items() {
    assert_eq!(mode_from_index(0), InitMode::FromUpstream);
    assert_eq!(mode_from_index(1), InitMode::Select);
}

#[test]
fn overwrite_checks_only_existing_unforced_files() {
    assert!(!overwrite_needs_check(false, false));
    assert!(!overwrite_needs_check(true, true));
    assert!(overwrite_needs_check(true, false));
}

#[test]
fn compare_for_overwrite_decisions() {
    assert!(matches!(compare_for_overwrite("w.yaml", "same", "same", false), OverwriteAnswer::UpToDate));
    assert!(matches!(compare_for_overwrite("w.yaml", "old", "new", true), OverwriteAnswer::AskWithDiff));
    match compare_for_overwrite("w.yaml", "old", "new", false) {
        OverwriteAnswer::Refuse(e) => assert!(e.to_string().contains("--force")),
        other => panic!("unexpected {other:?}"),
    }
}

#[test]
fn read_upstream_manifest_reference_format() {
    assert_eq!(
        upstream_manifest_ref("owner/upstream", "main"),
        "owner/upstream@main:.github/gh-sync/config.yaml"
    );
}

#[test]
fn schema_comment_is_prepended() {
    let out = with_schema_comment("upstream:\n  repo: owner/repo\n");
    assert!(out.starts_with("# yaml-language-server"));
    assert!(out.ends_with("upstream:\n  repo: owner/repo\n"));
}

#[test]
fn diff_display_line_marks_each_tag() {
    assert_eq!(diff_display_line(1, "old\n"), "-old");
    assert_eq!(diff_display_line(2, "new\n\n"), "+new");
    assert_eq!(diff_display_line(0, "same"), " same");
}

#[test]
fn overwrite_diff_shows_changes_with_context() {
    let lines = overwrite_diff("a\nb\nc\n", "a\nx\nc\n");
    let shown: Vec<(u8, &str)> = lines.iter().map(|(t, l)| (*t, l.as_str())).collect();
    assert_eq!(
        shown,
        vec![(0, " a"), (1, "-b"), (2, "+x"), (0, " c")]
    );
    assert!(overwrite_diff("same\n", "same\n").is_empty());
}
