use gh_sync::pr::porcelain::parse_porcelain_output;
use gh_sync::pr::{
    chrono_timestamp, create_blob, create_branch_ref, create_commit, create_pr, create_tree,
    default_branch, deliver_changes, head_sha, repo_name_inner, PrArgs, TreeEntry,
};
use gh_sync::runner::{require_success, CliError, GhOutput, GhRunner};

/// Minimal mock runner that returns pre-canned responses in call order.
struct MockRunner {
    responses: Vec<(Vec<String>, GhOutput)>,
    call_index: std::sync::Mutex<usize>,
    calls: std::sync::Mutex<Vec<(Vec<String>, Option<Vec<u8>>)>>,
}

impl MockRunner {
    fn new(responses: Vec<(Vec<&str>, GhOutput)>) -> Self {
        Self {
            responses: responses
                .into_iter()
                .map(|(k, v)| (k.into_iter().map(String::from).collect(), v))
                .collect(),
            call_index: std::sync::Mutex::new(0),
            calls: std::sync::Mutex::new(Vec::new()),
        }
    }

    fn ok(stdout: &str) -> GhOutput {
        GhOutput {
            exit_code: Some(0),
            stdout: stdout.as_bytes().to_vec(),
            stderr: vec![],
        }
    }

    fn err(stderr: &str) -> GhOutput {
        GhOutput {
            exit_code: Some(1),
            stdout: vec![],
            stderr: stderr.as_bytes().to_vec(),
        }
    }

    fn calls(&self) -> Vec<(Vec<String>, Option<Vec<u8>>)> {
        self.calls.lock().unwrap().clone()
    }
}

impl GhRunner for MockRunner {
    fn run(&mut self, args: &[&str], stdin: Option<&[u8]>) -> Result<GhOutput, CliError> {
        self.calls.lock().unwrap().push((
            args.iter().map(|a| a.to_string()).collect(),
            stdin.map(|b| b.to_vec()),
        ));
        let i = {
            let mut idx = self.call_index.lock().unwrap();
            let i = *idx;
            *idx += 1;
            i
        };
        if i < self.responses.len() {
            Ok(self.responses[i].1.clone())
        } else {
            Ok(Self::ok(""))
        }
    }
}

/// Runner that always returns `Err` from `run()` (simulates spawn failure).
struct FailRunner;

impl GhRunner for FailRunner {
    fn run(&mut self, _args: &[&str], _stdin: Option<&[u8]>) -> Result<GhOutput, CliError> {
        Err(CliError::new("spawn failed"))
    }
}

// ---------------------------------------------------------------------------
// parse_porcelain_output
// ---------------------------------------------------------------------------

#[test]
fn parse_porcelain_empty_returns_empty() {
    assert!(parse_porcelain_output("").is_empty());
}

#[test]
fn parse_porcelain_modified_unstaged() {
    let result = parse_porcelain_output(" M src/lib.rs\n");
    assert_eq!(result.len(), 1);
    assert_eq!(result[0].0, "src/lib.rs");
    assert!(!result[0].1, "should not be deleted");
}

#[test]
fn parse_porcelain_modified_staged() {
    let result = parse_porcelain_output("M  src/lib.rs\n");
    assert_eq!(result.len(), 1);
    assert_eq!(result[0].0, "src/lib.rs");
    assert!(!result[0].1, "should not be deleted");
}

#[test]
fn parse_porcelain_added_staged() {
    let result = parse_porcelain_output("A  new_file.rs\n");
    assert_eq!(result.len(), 1);
    assert_eq!(result[0].0, "new_file.rs");
    assert!(!result[0].1, "added file should not be deleted");
}

#[test]
fn parse_porcelain_untracked_file() {
    let result = parse_porcelain_output("?? untracked.rs\n");
    assert_eq!(result.len(), 1);
    assert_eq!(result[0].0, "untracked.rs");
    assert!(!result[0].1, "untracked file should not be deleted");
}

#[test]
fn parse_porcelain_deleted_unstaged() {
    let result = parse_porcelain_output(" D path/to/file.rs\n");
    assert_eq!(result.len(), 1);
    assert_eq!(result[0].0, "path/to/file.rs");
    assert!(result[0].1, "should be deleted");
}

#[test]
fn parse_porcelain_deleted_staged() {
    let result = parse_porcelain_output("D  path/to/file.rs\n");
    assert_eq!(result.len(), 1);
    assert_eq!(result[0].0, "path/to/file.rs");
    assert!(result[0].1, "staged delete should be marked deleted");
}

#[test]
fn parse_porcelain_staged_modified_unstaged_deleted() {
    let result = parse_porcelain_output("MD path/to/file.rs\n");
    assert_eq!(result.len(), 1);
    assert!(result[0].1, "ends-with-D should be treated as deleted");
}

#[test]
fn parse_porcelain_renamed_takes_new_path() {
    let result = parse_porcelain_output("R  old/name.rs -> new/name.rs\n");
    assert_eq!(result.len(), 1);
    assert_eq!(result[0].0, "new/name.rs");
    assert!(!result[0].1, "renamed file should not be deleted");
}

#[test]
fn parse_porcelain_skips_short_lines() {
    let result = parse_porcelain_output("M \n");
    assert!(result.is_empty(), "short line should be skipped");
}

#[test]
fn parse_porcelain_multiple_files() {
    let out = " M src/lib.rs\n D deleted.txt\nA  added.rs\n";
    let result = parse_porcelain_output(out);
    assert_eq!(result.len(), 3);
    assert_eq!(result[0].0, "src/lib.rs");
    assert!(!result[0].1);
    assert_eq!(result[1].0, "deleted.txt");
    assert!(result[1].1);
    assert_eq!(result[2].0, "added.rs");
    assert!(!result[2].1);
}

#[test]
fn parse_porcelain_whitespace_trimmed_from_path() {
    let result = parse_porcelain_output(" M  path/with spaces.txt \n");
    assert_eq!(result[0].0, "path/with spaces.txt");
}

#[test]
fn parse_porcelain_crlf_and_missing_final_newline() {
    let result = parse_porcelain_output(" M a.txt\r\n D b.txt");
    assert_eq!(result.len(), 2);
    assert_eq!(result[0], (String::from("a.txt"), false));
    assert_eq!(result[1], (String::from("b.txt"), true));
}

#[test]
fn parse_porcelain_counts_bytes_not_chars() {
    // "é" is two bytes, so "é x" is four bytes long and is read; its status
    // code is the single character "é".
    let result = parse_porcelain_output("é x\n");
    assert_eq!(result, vec![(String::from("x"), false)]);
    // "?é" is three bytes: skipped.
    assert!(parse_porcelain_output("?é\n").is_empty());
}

#[test]
fn parse_porcelain_rename_takes_text_after_first_arrow() {
    let result = parse_porcelain_output("R  a -> b -> c\n");
    assert_eq!(result[0].0, "b -> c");
}

// ---------------------------------------------------------------------------
// require_success
// ---------------------------------------------------------------------------

#[test]
fn require_success_ok_on_zero_exit() {
    let ok = MockRunner::ok("some-sha\n");
    assert!(require_success(&ok, "test").is_ok());
}

#[test]
fn require_success_err_on_nonzero_exit() {
    let err = MockRunner::err("bad");
    assert!(require_success(&err, "test").is_err());
}

#[test]
fn require_success_includes_context_in_error() {
    let out = GhOutput {
        exit_code: Some(1),
        stdout: b"stdout content".to_vec(),
        stderr: b"the real error".to_vec(),
    };
    let err = require_success(&out, "my-step").unwrap_err();
    assert!(
        err.to_string().contains("my-step"),
        "context missing: {}",
        err.to_string()
    );
    assert!(
        err.to_string().contains("the real error"),
        "stderr missing: {}",
        err.to_string()
    );
}

#[test]
fn require_success_message_format() {
    let out = GhOutput {
        exit_code: Some(-2),
        stdout: b"out".to_vec(),
        stderr: b"err ".to_vec(),
    };
    let err = require_success(&out, "step").unwrap_err();
    assert_eq!(err.to_string(), "step failed (exit Some(-2)): err out");
    let killed = GhOutput {
        exit_code: None,
        stdout: vec![],
        stderr: vec![0xff],
    };
    let err = require_success(&killed, "x").unwrap_err();
    assert_eq!(err.to_string(), "x failed (exit None): \u{fffd}");
}

// ---------------------------------------------------------------------------
// chrono_timestamp
// ---------------------------------------------------------------------------

#[test]
fn chrono_timestamp_is_nonempty_digits() {
    let ts = chrono_timestamp();
    assert!(!ts.is_empty());
    assert!(ts.chars().all(|c| c.is_ascii_digit()));
}

#[test]
fn chrono_timestamp_is_monotonically_nondecreasing() {
    let t1 = chrono_timestamp()
        .parse::<u64>()
        .expect("timestamp must be a number");
    let t2 = chrono_timestamp()
        .parse::<u64>()
        .expect("timestamp must be a number");
    assert!(t2 >= t1, "timestamps must not decrease");
}

// ---------------------------------------------------------------------------
// repo_name_inner
// ---------------------------------------------------------------------------

#[test]
fn repo_name_inner_returns_env_when_set() {
    let mut runner = FailRunner; // would fail if called
    let result = repo_name_inner(&mut runner, Some(String::from("owner/repo"))).unwrap();
    assert_eq!(result, "owner/repo");
}

#[test]
fn repo_name_inner_ignores_empty_env_and_calls_runner() {
    let mut runner = MockRunner::new(vec![(
        vec!["repo", "view"],
        MockRunner::ok("cli-owner/cli-repo\n"),
    )]);
    let result = repo_name_inner(&mut runner, Some(String::new())).unwrap();
    assert_eq!(result, "cli-owner/cli-repo");
}

#[test]
fn repo_name_inner_calls_runner_when_env_none() {
    let mut runner = MockRunner::new(vec![(
        vec!["repo", "view"],
        MockRunner::ok("runner-owner/runner-repo\n"),
    )]);
    let result = repo_name_inner(&mut runner, None).unwrap();
    assert_eq!(result, "runner-owner/runner-repo");
    assert_eq!(
        runner.calls()[0].0,
        vec!["repo", "view", "--json", "nameWithOwner", "--jq", ".nameWithOwner"]
    );
}

#[test]
fn repo_name_inner_propagates_runner_gh_error() {
    let mut runner = MockRunner::new(vec![(
        vec!["repo", "view"],
        MockRunner::err("authentication required"),
    )]);
    let err = repo_name_inner(&mut runner, None).unwrap_err();
    assert!(
        err.to_string().contains("authentication required")
            || err.to_string().contains("gh repo view"),
        "expected error detail: {}",
        err.to_string()
    );
}

#[test]
fn repo_name_inner_propagates_spawn_failure() {
    let err = repo_name_inner(&mut FailRunner, None).unwrap_err();
    assert!(
        err.to_string().contains("spawn failed") || err.to_string().contains("failed"),
        "expected spawn error: {}",
        err.to_string()
    );
    assert_eq!(err.full_message(), "failed to spawn `gh`: spawn failed");
}

// ---------------------------------------------------------------------------
// default_branch
// ---------------------------------------------------------------------------

#[test]
fn default_branch_returns_branch_name() {
    let mut runner = MockRunner::new(vec![(vec!["repo", "view"], MockRunner::ok("main\n"))]);
    let branch = default_branch(&mut runner, "owner/repo").unwrap();
    assert_eq!(branch, "main");
}

#[test]
fn default_branch_trims_whitespace() {
    let mut runner = MockRunner::new(vec![(
        vec!["repo", "view"],
        MockRunner::ok("  develop  \n"),
    )]);
    let branch = default_branch(&mut runner, "owner/repo").unwrap();
    assert_eq!(branch, "develop");
}

#[test]
fn default_branch_propagates_gh_error() {
    let mut runner = MockRunner::new(vec![(vec!["repo", "view"], MockRunner::err("not found"))]);
    let err = default_branch(&mut runner, "owner/repo").unwrap_err();
    assert!(
        err.to_string().contains("not found") || err.to_string().contains("defaultBranchRef"),
        "expected error: {}",
        err.to_string()
    );
}

#[test]
fn default_branch_propagates_spawn_failure() {
    let err = default_branch(&mut FailRunner, "owner/repo").unwrap_err();
    assert!(
        err.to_string().contains("spawn failed") || err.to_string().contains("failed"),
        "expected spawn error: {}",
        err.to_string()
    );
}

// ---------------------------------------------------------------------------
// head_sha
// ---------------------------------------------------------------------------

#[test]
fn head_sha_returns_commit_sha() {
    let mut runner = MockRunner::new(vec![(
        vec!["api", "repos/owner/repo/git/ref/heads/main"],
        MockRunner::ok("aabbccdd\n"),
    )]);
    let sha = head_sha(&mut runner, "owner/repo", "main").unwrap();
    assert_eq!(sha, "aabbccdd");
    assert_eq!(
        runner.calls()[0].0,
        vec!["api", "repos/owner/repo/git/ref/heads/main", "--jq", ".object.sha"]
    );
}

#[test]
fn head_sha_trims_whitespace() {
    let mut runner = MockRunner::new(vec![(vec!["api"], MockRunner::ok("  deadbeef  \n"))]);
    let sha = head_sha(&mut runner, "owner/repo", "main").unwrap();
    assert_eq!(sha, "deadbeef");
}

#[test]
fn head_sha_propagates_gh_error() {
    let mut runner = MockRunner::new(vec![(vec!["api"], MockRunner::err("branch not found"))]);
    let err = head_sha(&mut runner, "owner/repo", "nonexistent").unwrap_err();
    assert!(
        err.to_string().contains("branch not found") || err.to_string().contains("git/ref"),
        "expected error: {}",
        err.to_string()
    );
}

#[test]
fn head_sha_propagates_spawn_failure() {
    let err = head_sha(&mut FailRunner, "owner/repo", "main").unwrap_err();
    assert!(
        err.to_string().contains("spawn failed") || err.to_string().contains("failed"),
        "expected spawn error: {}",
        err.to_string()
    );
}

// ---------------------------------------------------------------------------
// create_blob
// ---------------------------------------------------------------------------

#[test]
fn create_blob_calls_correct_endpoint() {
    let mut runner = MockRunner::new(vec![(
        vec!["api", "repos/owner/repo/git/blobs"],
        MockRunner::ok("abc123sha\n"),
    )]);
    let sha = create_blob(&mut runner, "owner/repo", "file content").unwrap();
    assert_eq!(sha, "abc123sha");
    let calls = runner.calls();
    assert_eq!(
        calls[0].0,
        vec!["api", "repos/owner/repo/git/blobs", "--method", "POST", "--input", "-", "--jq", ".sha"]
    );
    assert_eq!(
        calls[0].1.as_deref(),
        Some(&b"{\"content\":\"file content\",\"encoding\":\"utf-8\"}"[..])
    );
}

#[test]
fn create_blob_escapes_content_like_serde_json() {
    let mut runner = MockRunner::new(vec![(vec!["api"], MockRunner::ok("s\n"))]);
    let content = "a\"b\\c\nd\te\u{1}f\u{7f}é";
    create_blob(&mut runner, "o/r", content).unwrap();
    let sent = runner.calls()[0].1.clone().unwrap();
    let value: serde_json::Value = serde_json::from_slice(&sent).unwrap();
    assert_eq!(value["content"], content);
    assert_eq!(value["encoding"], "utf-8");
    let expected = serde_json::to_vec(&serde_json::Value::Object(
        [
            (String::from("content"), serde_json::Value::String(content.to_owned())),
            (String::from("encoding"), serde_json::Value::String(String::from("utf-8"))),
        ]
        .into_iter()
        .collect(),
    ))
    .unwrap();
    assert_eq!(sent, expected);
}

#[test]
fn create_blob_propagates_error() {
    let mut runner = MockRunner::new(vec![(vec!["api"], MockRunner::err("network error"))]);
    let err = create_blob(&mut runner, "owner/repo", "content").unwrap_err();
    assert!(err.to_string().contains("network error") || err.to_string().contains("failed"));
}

#[test]
fn create_blob_propagates_spawn_failure() {
    let err = create_blob(&mut FailRunner, "owner/repo", "content").unwrap_err();
    assert!(err.to_string().contains("spawn failed") || err.to_string().contains("failed"));
}

// ---------------------------------------------------------------------------
// create_tree
// ---------------------------------------------------------------------------

#[test]
fn create_tree_calls_correct_endpoint() {
    let mut runner = MockRunner::new(vec![(
        vec!["api", "repos/owner/repo/git/trees"],
        MockRunner::ok("tree-sha\n"),
    )]);
    let entries = vec![TreeEntry {
        path: String::from("foo.txt"),
        mode: String::from("100644"),
        type_: String::from("blob"),
        sha: Some(String::from("abc")),
    }];
    let sha = create_tree(&mut runner, "owner/repo", "base-sha", &entries).unwrap();
    assert_eq!(sha, "tree-sha");
    assert_eq!(
        runner.calls()[0].1.as_deref(),
        Some(
            &b"{\"base_tree\":\"base-sha\",\"tree\":[{\"path\":\"foo.txt\",\"mode\":\"100644\",\"type\":\"blob\",\"sha\":\"abc\"}]}"[..]
        )
    );
}

#[test]
fn create_tree_with_deleted_entry() {
    let mut runner = MockRunner::new(vec![(vec!["api"], MockRunner::ok("tree-sha2\n"))]);
    let entries = vec![TreeEntry {
        path: String::from("removed.txt"),
        mode: String::from("100644"),
        type_: String::from("blob"),
        sha: None,
    }];
    let sha = create_tree(&mut runner, "owner/repo", "base-sha", &entries).unwrap();
    assert_eq!(sha, "tree-sha2");
    let sent = runner.calls()[0].1.clone().unwrap();
    let value: serde_json::Value = serde_json::from_slice(&sent).unwrap();
    assert!(value["tree"][0]["sha"].is_null());
}

#[test]
fn create_tree_propagates_error() {
    let mut runner = MockRunner::new(vec![(vec!["api"], MockRunner::err("server error"))]);
    let entries: Vec<TreeEntry> = vec![];
    let err = create_tree(&mut runner, "owner/repo", "base-sha", &entries).unwrap_err();
    assert!(err.to_string().contains("server error") || err.to_string().contains("failed"));
}

#[test]
fn create_tree_separates_entries_with_commas() {
    let mut runner = MockRunner::new(vec![(vec!["api"], MockRunner::ok("t\n"))]);
    let entry = |p: &str| TreeEntry {
        path: String::from(p),
        mode: String::from("100644"),
        type_: String::from("blob"),
        sha: None,
    };
    create_tree(&mut runner, "o/r", "b", &[entry("a"), entry("b"), entry("c")]).unwrap();
    let sent = runner.calls()[0].1.clone().unwrap();
    let value: serde_json::Value = serde_json::from_slice(&sent).unwrap();
    assert_eq!(value["tree"].as_array().unwrap().len(), 3);
    assert_eq!(value["tree"][2]["path"], "c");
}

// ---------------------------------------------------------------------------
// create_commit
// ---------------------------------------------------------------------------

#[test]
fn create_commit_calls_correct_endpoint() {
    let mut runner = MockRunner::new(vec![(
        vec!["api", "repos/owner/repo/git/commits"],
        MockRunner::ok("commit-sha\n"),
    )]);
    let sha = create_commit(
        &mut runner,
        "owner/repo",
        "chore: sync",
        "tree-sha",
        "parent-sha",
    )
    .unwrap();
    assert_eq!(sha, "commit-sha");
    assert_eq!(
        runner.calls()[0].1.as_deref(),
        Some(&b"{\"message\":\"chore: sync\",\"parents\":[\"parent-sha\"],\"tree\":\"tree-sha\"}"[..])
    );
}

#[test]
fn create_commit_propagates_error() {
    let mut runner = MockRunner::new(vec![(vec!["api"], MockRunner::err("commit failed"))]);
    let err = create_commit(&mut runner, "owner/repo", "msg", "tree", "parent").unwrap_err();
    assert!(err.to_string().contains("commit failed") || err.to_string().contains("failed"));
}

// ---------------------------------------------------------------------------
// create_branch_ref / force_update_ref
// ---------------------------------------------------------------------------

#[test]
fn create_branch_ref_succeeds_on_first_call() {
    let mut runner = MockRunner::new(vec![(
        vec!["api", "repos/owner/repo/git/refs"],
        MockRunner::ok(""),
    )]);
    assert!(create_branch_ref(&mut runner, "owner/repo", "my-branch", "commit-sha").is_ok());
    let calls = runner.calls();
    assert_eq!(calls.len(), 1);
    assert_eq!(
        calls[0].1.as_deref(),
        Some(&b"{\"ref\":\"refs/heads/my-branch\",\"sha\":\"commit-sha\"}"[..])
    );
}

#[test]
fn create_branch_ref_force_updates_on_existing() {
    let mut runner = MockRunner::new(vec![
        (
            vec!["api", "repos/owner/repo/git/refs"],
            GhOutput {
                exit_code: Some(1),
                stdout: vec![],
                stderr: b"already exists".to_vec(),
            },
        ),
        (
            vec!["api", "repos/owner/repo/git/refs/heads/my-branch"],
            MockRunner::ok(""),
        ),
    ]);
    assert!(create_branch_ref(&mut runner, "owner/repo", "my-branch", "commit-sha").is_ok());
    let calls = runner.calls();
    assert_eq!(
        calls[1].0,
        vec!["api", "repos/owner/repo/git/refs/heads/my-branch", "--method", "PATCH", "--input", "-"]
    );
    assert_eq!(
        calls[1].1.as_deref(),
        Some(&b"{\"force\":true,\"sha\":\"commit-sha\"}"[..])
    );
}

#[test]
fn create_branch_ref_fails_on_generic_error() {
    let mut runner = MockRunner::new(vec![(vec!["api"], MockRunner::err("permission denied"))]);
    let err = create_branch_ref(&mut runner, "owner/repo", "my-branch", "sha").unwrap_err();
    assert!(
        err.to_string().contains("permission denied") || err.to_string().contains("git/refs"),
        "expected error: {}",
        err.to_string()
    );
    assert_eq!(err.to_string(), "gh api git/refs failed: permission denied");
}

// ---------------------------------------------------------------------------
// create_pr
// ---------------------------------------------------------------------------

#[test]
fn create_pr_returns_url_on_success() {
    let mut runner = MockRunner::new(vec![(
        vec!["pr", "create"],
        MockRunner::ok("https://github.com/owner/repo/pull/1\n"),
    )]);
    let url = create_pr(&mut runner, "owner/repo", "main", "my-branch", "title", "body").unwrap();
    assert_eq!(url, "https://github.com/owner/repo/pull/1");
}

#[test]
fn create_pr_returns_existing_url_when_pr_exists() {
    let mut runner = MockRunner::new(vec![
        (vec!["pr", "create"], MockRunner::err("already exists")),
        (
            vec!["pr", "view"],
            MockRunner::ok("https://github.com/owner/repo/pull/42\n"),
        ),
    ]);
    let url = create_pr(&mut runner, "owner/repo", "main", "my-branch", "title", "body").unwrap();
    assert_eq!(url, "https://github.com/owner/repo/pull/42");
    assert_eq!(
        runner.calls()[1].0,
        vec!["pr", "view", "--repo", "owner/repo", "my-branch", "--json", "url", "--jq", ".url"]
    );
}

#[test]
fn create_pr_fails_on_generic_error() {
    let mut runner = MockRunner::new(vec![(
        vec!["pr", "create"],
        MockRunner::err("base branch not found"),
    )]);
    let err =
        create_pr(&mut runner, "owner/repo", "main", "my-branch", "title", "body").unwrap_err();
    assert!(
        err.to_string().contains("base branch not found")
            || err.to_string().contains("gh pr create"),
        "expected error: {}",
        err.to_string()
    );
}

#[test]
fn create_pr_url_is_trimmed() {
    let mut runner = MockRunner::new(vec![(
        vec!["pr", "create"],
        MockRunner::ok("https://github.com/owner/repo/pull/99\n\n"),
    )]);
    let url = create_pr(&mut runner, "owner/repo", "main", "my-branch", "title", "body").unwrap();
    assert_eq!(url, "https://github.com/owner/repo/pull/99");
}

// ---------------------------------------------------------------------------
// GhOutput::success
// ---------------------------------------------------------------------------

#[test]
fn gh_output_success_true_on_zero() {
    let out = GhOutput {
        exit_code: Some(0),
        stdout: vec![],
        stderr: vec![],
    };
    assert!(out.success());
}

#[test]
fn gh_output_success_false_on_nonzero() {
    let out = GhOutput {
        exit_code: Some(1),
        stdout: vec![],
        stderr: vec![],
    };
    assert!(!out.success());
}

#[test]
fn gh_output_success_false_on_none() {
    let out = GhOutput {
        exit_code: None,
        stdout: vec![],
        stderr: vec![],
    };
    assert!(!out.success());
}

fn delivery_args() -> PrArgs {
    PrArgs {
        title: String::from("sync"),
        body: String::from("body"),
        branch_prefix: String::from("gh-sync/file-sync"),
        base: None,
        commit_message: None,
    }
}

#[test]
fn deliver_changes_runs_every_step_in_order() {
    let mut runner = MockRunner::new(vec![
        (vec!["repo", "view"], MockRunner::ok("main\n")),
        (vec!["api"], MockRunner::ok("head-sha\n")),
        (vec!["api"], MockRunner::ok("blob-sha\n")),
        (vec!["api"], MockRunner::ok("tree-sha\n")),
        (vec!["api"], MockRunner::ok("commit-sha\n")),
        (vec!["api"], MockRunner::ok("")),
        (vec!["pr", "create"], MockRunner::ok("https://github.com/o/r/pull/7\n")),
    ]);
    let changes = vec![
        (String::from("a.txt"), Some(String::from("hi"))),
        (String::from("gone.txt"), None),
    ];
    let url = deliver_changes(&mut runner, "o/r", &delivery_args(), &changes, "123").unwrap();
    assert_eq!(url, "https://github.com/o/r/pull/7");
    let calls = runner.calls();
    assert_eq!(calls.len(), 7);
    assert_eq!(calls[1].0[1], "repos/o/r/git/ref/heads/main");
    assert_eq!(calls[2].0[1], "repos/o/r/git/blobs");
    let tree = String::from_utf8(calls[3].1.clone().unwrap()).unwrap();
    assert_eq!(
        tree,
        "{\"base_tree\":\"head-sha\",\"tree\":[{\"path\":\"a.txt\",\"mode\":\"100644\",\"type\":\"blob\",\"sha\":\"blob-sha\"},{\"path\":\"gone.txt\",\"mode\":\"100644\",\"type\":\"blob\",\"sha\":null}]}"
    );
    let commit = String::from_utf8(calls[4].1.clone().unwrap()).unwrap();
    assert_eq!(
        commit,
        "{\"message\":\"sync\",\"parents\":[\"head-sha\"],\"tree\":\"tree-sha\"}"
    );
    let branch_ref = String::from_utf8(calls[5].1.clone().unwrap()).unwrap();
    assert_eq!(
        branch_ref,
        "{\"ref\":\"refs/heads/gh-sync/file-sync-123\",\"sha\":\"commit-sha\"}"
    );
    assert_eq!(calls[6].0[7], "gh-sync/file-sync-123");
    assert_eq!(calls[6].0[5], "main");
}

#[test]
fn deliver_changes_stops_at_the_first_failure() {
    let mut runner = MockRunner::new(vec![
        (vec!["api"], MockRunner::ok("head-sha\n")),
        (vec!["api"], MockRunner::err("blob rejected")),
    ]);
    let mut args = delivery_args();
    args.base = Some(String::from("develop"));
    let changes = vec![
        (String::from("a.txt"), Some(String::from("hi"))),
        (String::from("b.txt"), Some(String::from("there"))),
    ];
    let err = deliver_changes(&mut runner, "o/r", &args, &changes, "1").unwrap_err();
    assert_eq!(err.to_string(), "gh api git/blobs failed (exit Some(1)): blob rejected");
    let calls = runner.calls();
    assert_eq!(calls.len(), 2);
    assert_eq!(calls[0].0[1], "repos/o/r/git/ref/heads/develop");
}

#[test]
fn epoch_seconds_is_zero_before_the_epoch() {
    assert_eq!(gh_sync::pr::epoch_seconds(None), 0);
    assert_eq!(gh_sync::pr::epoch_seconds(Some(1_700_000_000)), 1_700_000_000);
}

#[test]
fn parse_porcelain_output_splits_at_a_line_end() {
    let a = " M a.txt\n D b.txt\n";
    let b = "R  old -> new\n?? c.txt";
    let whole = parse_porcelain_output(&format!("{a}{b}"));
    let mut parts = parse_porcelain_output(a);
    parts.extend(parse_porcelain_output(b));
    assert_eq!(whole, parts);
    assert_eq!(whole.len(), 4);
}
