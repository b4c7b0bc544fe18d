//! The `pr` subcommand: commit working-tree changes through the GitHub API
//! and open a pull request.
use vstd::prelude::*;
use vstd::utf8::encode_utf8;

use crate::json::{json_quote, json_string};
use crate::runner::{
    call_at, decode_lossy, exited_ok, keeps_log, spawn_failure, stdout_text, text_step, text_view,
    unit_result, unit_step, unit_view, utf8_lossy, CliError, GhCall, GhOutput, GhRunner,
    TextAnswer, UnitAnswer,
};
use crate::text::{chars_of, contains, decimal, is_ascii_digit, law_decimal_round_trip, push_decimal, push_str, str_contains, string_from_chars, trim};

pub mod porcelain;

verus! {

// ---------------------------------------------------------------------------
// Arguments
// ---------------------------------------------------------------------------

/// CLI arguments of the `pr` subcommand.
#[derive(Debug, Clone)]
pub struct PrArgs {
    /// Pull request title
    pub title: String,
    /// Pull request body
    pub body: String,
    /// Branch name prefix; a timestamp suffix is appended automatically
    pub branch_prefix: String,
    /// Base branch for the pull request (defaults to the repository default branch)
    pub base: Option<String>,
    /// Commit message written into the signed commit
    pub commit_message: Option<String>,
}

/// One entry of a git tree to create.
#[derive(Debug, Clone)]
pub struct TreeEntry {
    /// Path of the file in the repository.
    pub path: String,
    /// File mode (`100644`).
    pub mode: String,
    /// Object type (`blob`).
    pub type_: String,
    /// Blob SHA; `None` deletes the path.
    pub sha: Option<String>,
}

/// Builds a `String` out of the characters in `v`.
fn text(v: &Vec<char>) -> (s: String)
    ensures
        s@ == v@,
{
    string_from_chars(v.as_slice())
}

// ---------------------------------------------------------------------------
// Timestamps
// ---------------------------------------------------------------------------

/// The system clock's time type.
#[verifier::external_type_specification]
#[verifier::external_body]
pub struct ExSystemTime(std::time::SystemTime);

/// The current time.
///
/// Trusted: calls std's `SystemTime::now`. Nothing is stated of it: it
/// depends on the clock.
#[verifier::external_body]
fn system_now() -> std::time::SystemTime {
    std::time::SystemTime::now()
}

/// How long after the Unix epoch `t` is; `None` when `t` is before it.
///
/// Trusted: calls std's `SystemTime::duration_since(UNIX_EPOCH)`, whose
/// error (a time before the epoch) becomes `None`. Nothing is stated of the
/// duration.
#[verifier::external_body]
fn since_unix_epoch(t: &std::time::SystemTime) -> Option<std::time::Duration> {
    t.duration_since(std::time::UNIX_EPOCH).ok()
}

/// The whole seconds of `d`.
///
/// Trusted: calls std's `Duration::as_secs`. `Duration` is opaque here, so
/// nothing is stated of the number.
#[verifier::external_body]
fn whole_seconds(d: &std::time::Duration) -> u64 {
    d.as_secs()
}

/// The seconds of a reading of the clock since the Unix epoch, `None` when
/// the clock was before it: those seconds, or 0.
pub fn epoch_seconds(since_epoch: Option<u64>) -> (s: u64)
    ensures
        s == match since_epoch {
            Some(secs) => secs,
            None => 0,
        },
{
    match since_epoch {
        Some(secs) => secs,
        None => 0,
    }
}

/// Seconds since the Unix epoch, or 0 when the clock is before it.
fn unix_time_secs() -> u64 {
    let since = match since_unix_epoch(&system_now()) {
        Some(d) => Some(whole_seconds(&d)),
        None => None,
    };
    epoch_seconds(since)
}

/// Return a timestamp string suitable for branch name suffixes: the Unix
/// time in seconds, in decimal, so a non-empty run of ASCII digits.
pub fn chrono_timestamp() -> (ts: String)
    ensures
        exists|secs: u64| ts@ == decimal(secs as nat),
        ts@.len() > 0,
        forall|k: int| 0 <= k < ts@.len() ==> is_ascii_digit(#[trigger] ts@[k]),
{
    let secs = unix_time_secs();
    let mut v: Vec<char> = Vec::new();
    push_decimal(secs, &mut v);
    assert(v@ =~= decimal(secs as nat));
    proof {
        law_decimal_round_trip(secs as nat);
    }
    text(&v)
}

// ---------------------------------------------------------------------------
// Reading values through `gh`
// ---------------------------------------------------------------------------

/// Arguments that print the `owner/repo` name of the current repository.
pub open spec fn repo_view_args() -> Seq<Seq<char>> {
    seq!["repo"@, "view"@, "--json"@, "nameWithOwner"@, "--jq"@, ".nameWithOwner"@]
}

/// `env_repo` holds a non-empty name.
pub open spec fn env_repo_set(env_repo: Option<String>) -> bool {
    env_repo matches Some(v) && v@.len() > 0
}

/// What looking up the repository name answers, read from the log at `at`:
/// a non-empty `env_repo` with no call, else what `gh repo view` printed.
pub open spec fn repo_name_step(log: Seq<GhCall>, at: int, env_repo: Option<String>) -> Option<
    (TextAnswer, int),
> {
    if env_repo_set(env_repo) {
        Some((Ok(env_repo->0@), at))
    } else {
        text_step(log, at, repo_view_args(), None, "gh repo view"@)
    }
}

/// Testable inner implementation of looking up the repository name.
///
/// When `env_repo` contains a non-empty value it is returned immediately
/// (matching GitHub Actions' `GITHUB_REPOSITORY`).  Otherwise the `gh` CLI
/// is called to determine the name.
pub fn repo_name_inner<R: GhRunner>(runner: &mut R, env_repo: Option<String>) -> (r: Result<String, CliError>)
    ensures
        keeps_log(old(runner).calls(), final(runner).calls()),
        repo_name_step(final(runner).calls(), old(runner).calls().len() as int, env_repo) == Some(
            (text_view(r), final(runner).calls().len() as int),
        ),
{
    if let Some(v) = env_repo {
        if !v.as_str().is_empty() {
            return Ok(v);
        }
    }
    let args = ["repo", "view", "--json", "nameWithOwner", "--jq", ".nameWithOwner"];
    let res = runner.run(&args, None);
    assert(crate::runner::arg_views(args@) =~= repo_view_args());
    stdout_text(res, "gh repo view")
}

/// Arguments that print the default branch of `repo`.
pub open spec fn default_branch_args(repo: Seq<char>) -> Seq<Seq<char>> {
    seq![
        "repo"@,
        "view"@,
        repo,
        "--json"@,
        "defaultBranchRef"@,
        "--jq"@,
        ".defaultBranchRef.name"@,
    ]
}

/// What looking up the default branch of `repo` answers, read from the log at `at`.
pub open spec fn default_branch_step(log: Seq<GhCall>, at: int, repo: Seq<char>) -> Option<
    (TextAnswer, int),
> {
    text_step(log, at, default_branch_args(repo), None, "gh repo view defaultBranchRef"@)
}

/// Return the default branch name for the repository.
pub fn default_branch<R: GhRunner>(runner: &mut R, repo: &str) -> (r: Result<String, CliError>)
    ensures
        keeps_log(old(runner).calls(), final(runner).calls()),
        default_branch_step(final(runner).calls(), old(runner).calls().len() as int, repo@) == Some(
            (text_view(r), final(runner).calls().len() as int),
        ),
{
    let args = ["repo", "view", repo, "--json", "defaultBranchRef", "--jq", ".defaultBranchRef.name"];
    let res = runner.run(&args, None);
    assert(crate::runner::arg_views(args@) =~= default_branch_args(repo@));
    stdout_text(res, "gh repo view defaultBranchRef")
}

/// Endpoint of the ref of `branch` in `repo`.
pub open spec fn branch_ref_endpoint(repo: Seq<char>, branch: Seq<char>) -> Seq<char> {
    "repos/"@ + repo + "/git/ref/heads/"@ + branch
}

/// Arguments that print the commit SHA that `branch` of `repo` points at.
pub open spec fn head_sha_args(repo: Seq<char>, branch: Seq<char>) -> Seq<Seq<char>> {
    seq!["api"@, branch_ref_endpoint(repo, branch), "--jq"@, ".object.sha"@]
}

/// What looking up the head commit of `branch` answers, read from the log at `at`.
pub open spec fn head_sha_step(log: Seq<GhCall>, at: int, repo: Seq<char>, branch: Seq<char>) -> Option<
    (TextAnswer, int),
> {
    text_step(log, at, head_sha_args(repo, branch), None, "gh api git/ref"@)
}

/// Return the HEAD commit SHA for the given branch.
pub fn head_sha<R: GhRunner>(runner: &mut R, repo: &str, branch: &str) -> (r: Result<String, CliError>)
    ensures
        keeps_log(old(runner).calls(), final(runner).calls()),
        head_sha_step(final(runner).calls(), old(runner).calls().len() as int, repo@, branch@)
            == Some((text_view(r), final(runner).calls().len() as int)),
{
    let mut e: Vec<char> = Vec::new();
    push_str(&mut e, "repos/");
    push_str(&mut e, repo);
    push_str(&mut e, "/git/ref/heads/");
    push_str(&mut e, branch);
    let endpoint = text(&e);
    assert(endpoint@ =~= branch_ref_endpoint(repo@, branch@));
    let args = ["api", endpoint.as_str(), "--jq", ".object.sha"];
    let res = runner.run(&args, None);
    assert(crate::runner::arg_views(args@) =~= head_sha_args(repo@, branch@));
    stdout_text(res, "gh api git/ref")
}

// ---------------------------------------------------------------------------
// Writing git objects through `gh api`
// ---------------------------------------------------------------------------

/// Endpoint `repos/{repo}/git/{kind}`.
pub open spec fn git_endpoint(repo: Seq<char>, kind: Seq<char>) -> Seq<char> {
    "repos/"@ + repo + "/git/"@ + kind
}

/// Arguments that POST the JSON on stdin to `endpoint` and print the new object's SHA.
pub open spec fn post_sha_args(endpoint: Seq<char>) -> Seq<Seq<char>> {
    seq!["api"@, endpoint, "--method"@, "POST"@, "--input"@, "-"@, "--jq"@, ".sha"@]
}

/// What creating a git object of `kind` in `repo` from `payload` answers,
/// read from the log at `at`.
pub open spec fn post_step(log: Seq<GhCall>, at: int, repo: Seq<char>, kind: Seq<char>, payload: Seq<
    char,
>, step: Seq<char>) -> Option<(TextAnswer, int)> {
    text_step(log, at, post_sha_args(git_endpoint(repo, kind)), Some(encode_utf8(payload)), step)
}

fn git_endpoint_text(repo: &str, kind: &str) -> (s: String)
    ensures
        s@ == git_endpoint(repo@, kind@),
{
    let mut e: Vec<char> = Vec::new();
    push_str(&mut e, "repos/");
    push_str(&mut e, repo);
    push_str(&mut e, "/git/");
    push_str(&mut e, kind);
    assert(e@ =~= git_endpoint(repo@, kind@));
    text(&e)
}

/// POSTs `payload` to the `kind` endpoint of `repo` and reads the SHA it prints.
fn post_for_sha<R: GhRunner>(runner: &mut R, repo: &str, kind: &str, payload: &String, step: &str) -> (r: Result<
    String,
    CliError,
>)
    ensures
        keeps_log(old(runner).calls(), final(runner).calls()),
        post_step(final(runner).calls(), old(runner).calls().len() as int, repo@, kind@, payload@, step@)
            == Some((text_view(r), final(runner).calls().len() as int)),
{
    let endpoint = git_endpoint_text(repo, kind);
    let bytes = payload.as_str().as_bytes();
    let args = ["api", endpoint.as_str(), "--method", "POST", "--input", "-", "--jq", ".sha"];
    let res = runner.run(&args, Some(bytes));
    assert(crate::runner::arg_views(args@) =~= post_sha_args(endpoint@));
    stdout_text(res, step)
}

/// JSON body of a blob holding `content` as UTF-8 text.
pub open spec fn blob_payload(content: Seq<char>) -> Seq<char> {
    "{\"content\":"@ + json_string(content) + ",\"encoding\":\"utf-8\"}"@
}

/// What creating a blob of `content` answers, read from the log at `at`.
pub open spec fn blob_step(log: Seq<GhCall>, at: int, repo: Seq<char>, content: Seq<char>) -> Option<
    (TextAnswer, int),
> {
    post_step(log, at, repo, "blobs"@, blob_payload(content), "gh api git/blobs"@)
}

/// Create a blob for `content` (UTF-8 text) and return its SHA.
pub fn create_blob<R: GhRunner>(runner: &mut R, repo: &str, content: &str) -> (r: Result<String, CliError>)
    ensures
        keeps_log(old(runner).calls(), final(runner).calls()),
        blob_step(final(runner).calls(), old(runner).calls().len() as int, repo@, content@) == Some(
            (text_view(r), final(runner).calls().len() as int),
        ),
{
    let mut p: Vec<char> = Vec::new();
    push_str(&mut p, "{\"content\":");
    let q = json_quote(content);
    push_str(&mut p, q.as_str());
    push_str(&mut p, ",\"encoding\":\"utf-8\"}");
    let payload = text(&p);
    assert(payload@ =~= blob_payload(content@));
    post_for_sha(runner, repo, "blobs", &payload, "gh api git/blobs")
}

/// A tree entry as plain values: path, mode, type, and blob SHA (`None` deletes the path).
pub type EntryView = (Seq<char>, Seq<char>, Seq<char>, Option<Seq<char>>);

/// `e` as plain values.
pub open spec fn entry_view(e: TreeEntry) -> EntryView {
    (
        e.path@,
        e.mode@,
        e.type_@,
        match e.sha {
            Some(s) => Some(s@),
            None => None,
        },
    )
}

/// The entries as plain values.
pub open spec fn entry_views(entries: Seq<TreeEntry>) -> Seq<EntryView> {
    entries.map_values(|e: TreeEntry| entry_view(e))
}

/// JSON of one tree entry; a missing SHA is written `null`.
pub open spec fn tree_entry_json(e: EntryView) -> Seq<char> {
    "{\"path\":"@ + json_string(e.0) + ",\"mode\":"@ + json_string(e.1) + ",\"type\":"@
        + json_string(e.2) + ",\"sha\":"@ + match e.3 {
        Some(s) => json_string(s),
        None => "null"@,
    } + "}"@
}

/// The entries' JSON, separated by commas.
pub open spec fn tree_entries_json(entries: Seq<EntryView>) -> Seq<char>
    decreases entries.len(),
{
    if entries.len() == 0 {
        seq![]
    } else if entries.len() == 1 {
        tree_entry_json(entries[0])
    } else {
        tree_entries_json(entries.drop_last()) + ","@ + tree_entry_json(entries.last())
    }
}

/// JSON body of a tree on top of `base_tree` with `entries`.
pub open spec fn tree_payload(base_tree: Seq<char>, entries: Seq<EntryView>) -> Seq<char> {
    "{\"base_tree\":"@ + json_string(base_tree) + ",\"tree\":["@ + tree_entries_json(entries)
        + "]}"@
}

/// What creating a tree of `entries` on `base_tree` answers, read from the log at `at`.
pub open spec fn tree_step(log: Seq<GhCall>, at: int, repo: Seq<char>, base_tree: Seq<char>, entries: Seq<
    EntryView,
>) -> Option<(TextAnswer, int)> {
    post_step(log, at, repo, "trees"@, tree_payload(base_tree, entries), "gh api git/trees"@)
}

fn push_tree_entry(p: &mut Vec<char>, e: &TreeEntry)
    ensures
        final(p)@ == old(p)@ + tree_entry_json(entry_view(*e)),
{
    let ghost start = p@;
    push_str(p, "{\"path\":");
    push_str(p, json_quote(e.path.as_str()).as_str());
    push_str(p, ",\"mode\":");
    push_str(p, json_quote(e.mode.as_str()).as_str());
    push_str(p, ",\"type\":");
    push_str(p, json_quote(e.type_.as_str()).as_str());
    push_str(p, ",\"sha\":");
    match &e.sha {
        Some(s) => push_str(p, json_quote(s.as_str()).as_str()),
        None => push_str(p, "null"),
    }
    push_str(p, "}");
    assert(p@ =~= start + tree_entry_json(entry_view(*e)));
}

/// Create a tree object and return its SHA.
pub fn create_tree<R: GhRunner>(runner: &mut R, repo: &str, base_tree_sha: &str, entries: &[TreeEntry]) -> (r: Result<
    String,
    CliError,
>)
    ensures
        keeps_log(old(runner).calls(), final(runner).calls()),
        tree_step(
            final(runner).calls(),
            old(runner).calls().len() as int,
            repo@,
            base_tree_sha@,
            entry_views(entries@),
        ) == Some((text_view(r), final(runner).calls().len() as int)),
{
    let mut p: Vec<char> = Vec::new();
    push_str(&mut p, "{\"base_tree\":");
    push_str(&mut p, json_quote(base_tree_sha).as_str());
    push_str(&mut p, ",\"tree\":[");
    let ghost head = p@;
    let mut i: usize = 0;
    assert(entry_views(entries@.take(0)) =~= Seq::<EntryView>::empty());
    while i < entries.len()
        invariant
            i <= entries@.len(),
            p@ == head + tree_entries_json(entry_views(entries@.take(i as int))),
        decreases entries@.len() - i,
    {
        assert(entry_views(entries@.take(i + 1)).drop_last() =~= entry_views(entries@.take(i as int)));
        assert(entry_views(entries@.take(i + 1)).last() == entry_view(entries@[i as int]));
        if i > 0 {
            push_str(&mut p, ",");
        }
        push_tree_entry(&mut p, &entries[i]);
        i = i + 1;
        assert(p@ =~= head + tree_entries_json(entry_views(entries@.take(i as int))));
    }
    assert(entries@.take(entries@.len() as int) =~= entries@);
    push_str(&mut p, "]}");
    let payload = text(&p);
    assert(payload@ =~= tree_payload(base_tree_sha@, entry_views(entries@)));
    post_for_sha(runner, repo, "trees", &payload, "gh api git/trees")
}

/// JSON body of a commit of `tree` with the single parent `parent`.
pub open spec fn commit_payload(message: Seq<char>, tree: Seq<char>, parent: Seq<char>) -> Seq<char> {
    "{\"message\":"@ + json_string(message) + ",\"parents\":["@ + json_string(parent) + "],\"tree\":"@
        + json_string(tree) + "}"@
}

/// What creating a commit answers, read from the log at `at`.
pub open spec fn commit_step(log: Seq<GhCall>, at: int, repo: Seq<char>, message: Seq<char>, tree: Seq<
    char,
>, parent: Seq<char>) -> Option<(TextAnswer, int)> {
    post_step(log, at, repo, "commits"@, commit_payload(message, tree, parent), "gh api git/commits"@)
}

/// Create a signed commit via the GitHub API and return its SHA.
pub fn create_commit<R: GhRunner>(
    runner: &mut R,
    repo: &str,
    message: &str,
    tree_sha: &str,
    parent_sha: &str,
) -> (r: Result<String, CliError>)
    ensures
        keeps_log(old(runner).calls(), final(runner).calls()),
        commit_step(
            final(runner).calls(),
            old(runner).calls().len() as int,
            repo@,
            message@,
            tree_sha@,
            parent_sha@,
        ) == Some((text_view(r), final(runner).calls().len() as int)),
{
    let mut p: Vec<char> = Vec::new();
    push_str(&mut p, "{\"message\":");
    push_str(&mut p, json_quote(message).as_str());
    push_str(&mut p, ",\"parents\":[");
    push_str(&mut p, json_quote(parent_sha).as_str());
    push_str(&mut p, "],\"tree\":");
    push_str(&mut p, json_quote(tree_sha).as_str());
    push_str(&mut p, "}");
    let payload = text(&p);
    assert(payload@ =~= commit_payload(message@, tree_sha@, parent_sha@));
    post_for_sha(runner, repo, "commits", &payload, "gh api git/commits")
}

// ---------------------------------------------------------------------------
// Branch refs
// ---------------------------------------------------------------------------

/// Arguments that send the JSON on stdin to `endpoint` with `method`.
pub open spec fn send_args(endpoint: Seq<char>, method: Seq<char>) -> Seq<Seq<char>> {
    seq!["api"@, endpoint, "--method"@, method, "--input"@, "-"@]
}

/// JSON body that creates `refs/heads/{branch}` at `sha`.
pub open spec fn ref_payload(branch: Seq<char>, sha: Seq<char>) -> Seq<char> {
    "{\"ref\":"@ + json_string("refs/heads/"@ + branch) + ",\"sha\":"@ + json_string(sha) + "}"@
}

/// JSON body that force-moves a ref to `sha`.
pub open spec fn force_ref_payload(sha: Seq<char>) -> Seq<char> {
    "{\"force\":true,\"sha\":"@ + json_string(sha) + "}"@
}

/// Endpoint of the ref of `branch`, for updating it.
pub open spec fn heads_endpoint(repo: Seq<char>, branch: Seq<char>) -> Seq<char> {
    "repos/"@ + repo + "/git/refs/heads/"@ + branch
}

/// Sends `payload` to `endpoint` with `method`: exactly that one call.
fn send_json<R: GhRunner>(runner: &mut R, endpoint: &str, method: &str, payload: &String) -> (res: Result<
    GhOutput,
    CliError,
>)
    ensures
        final(runner).calls() == old(runner).calls().push(
            (send_args(endpoint@, method@), Some(encode_utf8(payload@)), res),
        ),
{
    let bytes = payload.as_str().as_bytes();
    let args = ["api", endpoint, "--method", method, "--input", "-"];
    let res = runner.run(&args, Some(bytes));
    assert(crate::runner::arg_views(args@) =~= send_args(endpoint@, method@));
    res
}

/// What force-moving `branch` to `sha` answers, read from the log at `at`.
pub open spec fn force_update_step(log: Seq<GhCall>, at: int, repo: Seq<char>, branch: Seq<char>, sha: Seq<
    char,
>) -> Option<(UnitAnswer, int)> {
    unit_step(
        log,
        at,
        send_args(heads_endpoint(repo, branch), "PATCH"@),
        Some(encode_utf8(force_ref_payload(sha))),
        "gh api git/refs PATCH"@,
    )
}

/// Force-update an existing branch ref via PATCH.
pub fn force_update_ref<R: GhRunner>(runner: &mut R, repo: &str, branch: &str, commit_sha: &str) -> (r:
    Result<(), CliError>)
    ensures
        keeps_log(old(runner).calls(), final(runner).calls()),
        force_update_step(final(runner).calls(), old(runner).calls().len() as int, repo@, branch@, commit_sha@)
            == Some((unit_view(r), final(runner).calls().len() as int)),
{
    let mut e: Vec<char> = Vec::new();
    push_str(&mut e, "repos/");
    push_str(&mut e, repo);
    push_str(&mut e, "/git/refs/heads/");
    push_str(&mut e, branch);
    let endpoint = text(&e);
    assert(endpoint@ =~= heads_endpoint(repo@, branch@));
    let mut p: Vec<char> = Vec::new();
    push_str(&mut p, "{\"force\":true,\"sha\":");
    push_str(&mut p, json_quote(commit_sha).as_str());
    push_str(&mut p, "}");
    let payload = text(&p);
    assert(payload@ =~= force_ref_payload(commit_sha@));
    let res = send_json(runner, endpoint.as_str(), "PATCH", &payload);
    unit_result(res, "gh api git/refs PATCH")
}

/// What a failed ref creation printed: its stderr, then its stdout.
pub open spec fn combined_output(out: GhOutput) -> Seq<char> {
    utf8_lossy(out.stderr@) + utf8_lossy(out.stdout@)
}

/// The ref to create exists already.
pub open spec fn ref_exists_signal(text: Seq<char>) -> bool {
    contains(text, "already exists"@) || contains(text, "Reference already exists"@)
}

/// What creating `branch` at `sha` answers, read from the log at `at`: one
/// POST; when it fails because the ref exists, then one PATCH that
/// force-moves it; no other call.
pub open spec fn branch_ref_step(log: Seq<GhCall>, at: int, repo: Seq<char>, branch: Seq<char>, sha: Seq<
    char,
>) -> Option<(UnitAnswer, int)> {
    if !call_at(
        log,
        at,
        send_args(git_endpoint(repo, "refs"@), "POST"@),
        Some(encode_utf8(ref_payload(branch, sha))),
    ) {
        None
    } else {
        match log[at].2 {
            Err(e) => Some((Err((spawn_failure(), e.chain())), at + 1)),
            Ok(out) => if exited_ok(out) {
                Some((Ok(()), at + 1))
            } else if ref_exists_signal(combined_output(out)) {
                force_update_step(log, at + 1, repo, branch, sha)
            } else {
                Some(
                    (
                        Err(("gh api git/refs failed: "@ + combined_output(out), Seq::<char>::empty())),
                        at + 1,
                    ),
                )
            },
        }
    }
}

/// Create a branch ref pointing to `commit_sha`.
///
/// If the branch already exists (the failure mentions "already exists"),
/// force-updates the ref instead.
pub fn create_branch_ref<R: GhRunner>(runner: &mut R, repo: &str, branch: &str, commit_sha: &str) -> (r:
    Result<(), CliError>)
    ensures
        keeps_log(old(runner).calls(), final(runner).calls()),
        branch_ref_step(final(runner).calls(), old(runner).calls().len() as int, repo@, branch@, commit_sha@)
            == Some((unit_view(r), final(runner).calls().len() as int)),
{
    let ghost start = runner.calls();
    let endpoint = git_endpoint_text(repo, "refs");
    let mut ref_name: Vec<char> = Vec::new();
    push_str(&mut ref_name, "refs/heads/");
    push_str(&mut ref_name, branch);
    let ref_text = text(&ref_name);
    let mut p: Vec<char> = Vec::new();
    push_str(&mut p, "{\"ref\":");
    push_str(&mut p, json_quote(ref_text.as_str()).as_str());
    push_str(&mut p, ",\"sha\":");
    push_str(&mut p, json_quote(commit_sha).as_str());
    push_str(&mut p, "}");
    let payload = text(&p);
    assert(ref_text@ =~= "refs/heads/"@ + branch@);
    assert(payload@ =~= ref_payload(branch@, commit_sha@));
    let res = send_json(runner, endpoint.as_str(), "POST", &payload);
    let ghost mid = runner.calls();
    assert(mid[start.len() as int].2 == res);
    match res {
        Err(e) => Err(e.context("failed to spawn `gh`")),
        Ok(out) => {
            if out.success() {
                return Ok(());
            }
            let stderr = decode_lossy(out.stderr.as_slice());
            let stdout = decode_lossy(out.stdout.as_slice());
            let mut c = chars_of(stderr.as_str());
            push_str(&mut c, stdout.as_str());
            let combined = text(&c);
            assert(combined@ =~= combined_output(out));
            if str_contains(combined.as_str(), "already exists") || str_contains(
                combined.as_str(),
                "Reference already exists",
            ) {
                let r = force_update_ref(runner, repo, branch, commit_sha);
                assert(runner.calls()[start.len() as int] == mid[start.len() as int]);
                return r;
            }
            let mut m: Vec<char> = Vec::new();
            push_str(&mut m, "gh api git/refs failed: ");
            push_str(&mut m, combined.as_str());
            let message = text(&m);
            let e = CliError { message, cause: String::new() };
            assert(e.message@ =~= "gh api git/refs failed: "@ + combined_output(out));
            assert(e.cause@ =~= Seq::<char>::empty());
            Err(e)
        },
    }
}

// ---------------------------------------------------------------------------
// Pull requests
// ---------------------------------------------------------------------------

/// Arguments that open a pull request from `head` into `base`.
pub open spec fn pr_create_args(
    repo: Seq<char>,
    base: Seq<char>,
    head: Seq<char>,
    title: Seq<char>,
    body: Seq<char>,
) -> Seq<Seq<char>> {
    seq![
        "pr"@,
        "create"@,
        "--repo"@,
        repo,
        "--base"@,
        base,
        "--head"@,
        head,
        "--title"@,
        title,
        "--body"@,
        body,
    ]
}

/// Arguments that print the URL of the pull request of `head`.
pub open spec fn pr_view_args(repo: Seq<char>, head: Seq<char>) -> Seq<Seq<char>> {
    seq!["pr"@, "view"@, "--repo"@, repo, head, "--json"@, "url"@, "--jq"@, ".url"@]
}

/// The failure says that a pull request for the branch exists already.
pub open spec fn pr_exists_signal(stderr: Seq<char>) -> bool {
    contains(stderr, "already exists"@) || contains(stderr, "pull request for branch"@)
}

/// What opening a pull request answers, read from the log at `at`: one
/// `gh pr create`; when it fails because the pull request exists, then one
/// `gh pr view` that prints its URL; no other call.
pub open spec fn pr_step(
    log: Seq<GhCall>,
    at: int,
    repo: Seq<char>,
    base: Seq<char>,
    head: Seq<char>,
    title: Seq<char>,
    body: Seq<char>,
) -> Option<(TextAnswer, int)> {
    if !call_at(log, at, pr_create_args(repo, base, head, title, body), None) {
        None
    } else {
        match log[at].2 {
            Err(e) => Some((Err((spawn_failure(), e.chain())), at + 1)),
            Ok(out) => if exited_ok(out) {
                Some((Ok(trim(utf8_lossy(out.stdout@))), at + 1))
            } else if pr_exists_signal(utf8_lossy(out.stderr@)) {
                text_step(log, at + 1, pr_view_args(repo, head), None, "gh pr view"@)
            } else {
                Some(
                    (
                        Err(("gh pr create failed: "@ + utf8_lossy(out.stderr@), Seq::<char>::empty())),
                        at + 1,
                    ),
                )
            },
        }
    }
}

/// Opening a pull request runs `gh pr create --repo <repo> --base <base>
/// --head <head> --title <title> --body <body>`, with nothing on stdin, as
/// the first call of the step.
pub proof fn law_pr_create_passes_title_and_body(
    log: Seq<GhCall>,
    at: int,
    repo: Seq<char>,
    base: Seq<char>,
    head: Seq<char>,
    title: Seq<char>,
    body: Seq<char>,
)
    requires
        pr_step(log, at, repo, base, head, title, body) is Some,
    ensures
        0 <= at < log.len(),
        log[at].1 == None::<Seq<u8>>,
        log[at].0 =~= seq![
            "pr"@,
            "create"@,
            "--repo"@,
            repo,
            "--base"@,
            base,
            "--head"@,
            head,
            "--title"@,
            title,
            "--body"@,
            body,
        ],
{
}

/// Create a pull request and return its URL.
///
/// Idempotent: if a PR already exists for the branch, returns the existing URL.
pub fn create_pr<R: GhRunner>(
    runner: &mut R,
    repo: &str,
    base: &str,
    head: &str,
    title: &str,
    body: &str,
) -> (r: Result<String, CliError>)
    ensures
        keeps_log(old(runner).calls(), final(runner).calls()),
        pr_step(
            final(runner).calls(),
            old(runner).calls().len() as int,
            repo@,
            base@,
            head@,
            title@,
            body@,
        ) == Some((text_view(r), final(runner).calls().len() as int)),
{
    let ghost start = runner.calls();
    let args = [
        "pr",
        "create",
        "--repo",
        repo,
        "--base",
        base,
        "--head",
        head,
        "--title",
        title,
        "--body",
        body,
    ];
    let res = runner.run(&args, None);
    assert(crate::runner::arg_views(args@) =~= pr_create_args(repo@, base@, head@, title@, body@));
    let ghost mid = runner.calls();
    assert(mid[start.len() as int].2 == res);
    let out = match res {
        Err(e) => {
            return Err(e.context("failed to spawn `gh`"));
        },
        Ok(out) => out,
    };
    if out.success() {
        return Ok(crate::runner::lossy_trimmed(out.stdout.as_slice()));
    }
    let stderr = decode_lossy(out.stderr.as_slice());
    if str_contains(stderr.as_str(), "already exists") || str_contains(
        stderr.as_str(),
        "pull request for branch",
    ) {
        let view_args = ["pr", "view", "--repo", repo, head, "--json", "url", "--jq", ".url"];
        let view = runner.run(&view_args, None);
        assert(crate::runner::arg_views(view_args@) =~= pr_view_args(repo@, head@));
        assert(runner.calls()[start.len() as int] == mid[start.len() as int]);
        return stdout_text(view, "gh pr view");
    }
    let mut m: Vec<char> = Vec::new();
    push_str(&mut m, "gh pr create failed: ");
    push_str(&mut m, stderr.as_str());
    let message = text(&m);
    let e = CliError { message, cause: String::new() };
    assert(e.message@ =~= "gh pr create failed: "@ + utf8_lossy(out.stderr@));
    assert(e.cause@ =~= Seq::<char>::empty());
    Err(e)
}

// ---------------------------------------------------------------------------
// Assembling the pull request
// ---------------------------------------------------------------------------

/// The base branch, as plain values.
pub open spec fn opt_text(o: Option<String>) -> Option<Seq<char>> {
    match o {
        Some(s) => Some(s@),
        None => None,
    }
}

/// What choosing the base branch answers, read from the log at `at`: the
/// one given with no call, else the repository's default branch.
pub open spec fn base_branch_step(log: Seq<GhCall>, at: int, repo: Seq<char>, base: Option<Seq<char>>) -> Option<
    (TextAnswer, int),
> {
    match base {
        Some(b) => Some((Ok(b), at)),
        None => default_branch_step(log, at, repo),
    }
}

/// The base branch: the one given, else the repository's default branch.
pub fn base_branch<R: GhRunner>(runner: &mut R, repo: &str, base: Option<String>) -> (r: Result<
    String,
    CliError,
>)
    ensures
        keeps_log(old(runner).calls(), final(runner).calls()),
        base_branch_step(final(runner).calls(), old(runner).calls().len() as int, repo@, opt_text(base))
            == Some((text_view(r), final(runner).calls().len() as int)),
{
    match base {
        Some(b) => Ok(b),
        None => default_branch(runner, repo),
    }
}

/// The commit message: the one given, else the pull request title.
pub fn commit_message_for(args: &PrArgs) -> (m: String)
    ensures
        m@ == commit_message_of(*args),
{
    match &args.commit_message {
        Some(c) => c.clone(),
        None => args.title.clone(),
    }
}

/// The branch name: the prefix, a dash, and the timestamp.
pub fn branch_name(prefix: &str, timestamp: &str) -> (b: String)
    ensures
        b@ == prefix@ + "-"@ + timestamp@,
{
    let mut v: Vec<char> = Vec::new();
    push_str(&mut v, prefix);
    push_str(&mut v, "-");
    push_str(&mut v, timestamp);
    assert(v@ =~= prefix@ + "-"@ + timestamp@);
    text(&v)
}

impl TreeEntry {
    /// The tree entry for a changed file at `path`: a regular-file blob with
    /// the given SHA, or, with `None`, the removal of a deleted file.
    pub fn for_change(path: &str, blob_sha: Option<String>) -> (e: TreeEntry)
        ensures
            e.path@ == path@,
            e.mode@ == "100644"@,
            e.type_@ == "blob"@,
            e.sha == blob_sha,
    {
        TreeEntry {
            path: path.to_owned(),
            mode: "100644".to_owned(),
            type_: "blob".to_owned(),
            sha: blob_sha,
        }
    }
}

// ---------------------------------------------------------------------------
// Delivering the changes as a pull request
// ---------------------------------------------------------------------------

/// The commit message chosen by `args`: the one given, else the title.
pub open spec fn commit_message_of(args: PrArgs) -> Seq<char> {
    match args.commit_message {
        Some(c) => c@,
        None => args.title@,
    }
}

/// A changed file as plain values: its path and, unless it was deleted, its content.
pub type ChangeView = (Seq<char>, Option<Seq<char>>);

/// The changes as plain values.
pub open spec fn change_views(changes: Seq<(String, Option<String>)>) -> Seq<ChangeView> {
    changes.map_values(|c: (String, Option<String>)| (c.0@, opt_text(c.1)))
}

/// The tree entry of a changed file at `path`, as [`TreeEntry::for_change`] builds it.
pub open spec fn change_entry(path: Seq<char>, blob_sha: Option<Seq<char>>) -> EntryView {
    (path, "100644"@, "blob"@, blob_sha)
}

/// What creating the blobs of `changes` answers, read from the log at `at`:
/// for each change in order, one blob call when it has content and none for
/// a deletion, stopping at the first failure; the answer is the tree entries.
pub open spec fn blobs_step(log: Seq<GhCall>, at: int, repo: Seq<char>, changes: Seq<ChangeView>) -> Option<
    (Result<Seq<EntryView>, (Seq<char>, Seq<char>)>, int),
>
    decreases changes.len(),
{
    if changes.len() == 0 {
        Some((Ok(seq![]), at))
    } else {
        match blobs_step(log, at, repo, changes.drop_last()) {
            Some((Ok(es), p)) => match changes.last().1 {
                None => Some((Ok(es.push(change_entry(changes.last().0, None))), p)),
                Some(content) => match blob_step(log, p, repo, content) {
                    Some((Ok(sha), q)) => Some((Ok(es.push(change_entry(changes.last().0, Some(sha)))), q)),
                    Some((Err(e), q)) => Some((Err(e), q)),
                    None => None,
                },
            },
            other => other,
        }
    }
}

/// What delivering `changes` as a pull request answers, read from the log at
/// `at`: the base branch, its head commit, the blobs, a tree on that head, a
/// commit of the tree with the head as parent, the branch
/// `{prefix}-{timestamp}` at that commit, and the pull request from it into
/// the base, each step only when the ones before it succeeded. The answer is
/// the pull request's URL, or the error of the first step that failed.
pub open spec fn delivery_step(
    log: Seq<GhCall>,
    at: int,
    repo: Seq<char>,
    args: PrArgs,
    changes: Seq<ChangeView>,
    timestamp: Seq<char>,
) -> Option<(TextAnswer, int)> {
    let branch = args.branch_prefix@ + "-"@ + timestamp;
    match base_branch_step(log, at, repo, opt_text(args.base)) {
        Some((Ok(base), p1)) => match head_sha_step(log, p1, repo, base) {
            Some((Ok(head), p2)) => match blobs_step(log, p2, repo, changes) {
                Some((Ok(entries), p3)) => match tree_step(log, p3, repo, head, entries) {
                    Some((Ok(tree), p4)) => match commit_step(
                        log,
                        p4,
                        repo,
                        commit_message_of(args),
                        tree,
                        head,
                    ) {
                        Some((Ok(commit), p5)) => match branch_ref_step(log, p5, repo, branch, commit) {
                            Some((Ok(_), p6)) => pr_step(
                                log,
                                p6,
                                repo,
                                base,
                                branch,
                                args.title@,
                                args.body@,
                            ),
                            Some((Err(e), p6)) => Some((Err(e), p6)),
                            None => None,
                        },
                        other => other,
                    },
                    other => other,
                },
                Some((Err(e), p3)) => Some((Err(e), p3)),
                None => None,
            },
            other => other,
        },
        other => other,
    }
}

proof fn lemma_text_step_stable(
    l1: Seq<GhCall>,
    l2: Seq<GhCall>,
    at: int,
    args: Seq<Seq<char>>,
    stdin: Option<Seq<u8>>,
    step: Seq<char>,
)
    requires
        keeps_log(l1, l2),
        text_step(l1, at, args, stdin, step) is Some,
    ensures
        text_step(l2, at, args, stdin, step) == text_step(l1, at, args, stdin, step),
{
    assert(l2[at] == l1[at]);
}

proof fn lemma_branch_ref_step_stable(
    l1: Seq<GhCall>,
    l2: Seq<GhCall>,
    at: int,
    repo: Seq<char>,
    branch: Seq<char>,
    sha: Seq<char>,
)
    requires
        keeps_log(l1, l2),
        branch_ref_step(l1, at, repo, branch, sha) is Some,
    ensures
        branch_ref_step(l2, at, repo, branch, sha) == branch_ref_step(l1, at, repo, branch, sha),
{
    assert(l2[at] == l1[at]);
    if at + 1 < l1.len() {
        assert(l2[at + 1] == l1[at + 1]);
    }
}

proof fn lemma_blobs_step_stable(l1: Seq<GhCall>, l2: Seq<GhCall>, at: int, repo: Seq<char>, changes: Seq<
    ChangeView,
>)
    requires
        keeps_log(l1, l2),
        blobs_step(l1, at, repo, changes) is Some,
    ensures
        blobs_step(l2, at, repo, changes) == blobs_step(l1, at, repo, changes),
    decreases changes.len(),
{
    if changes.len() > 0 {
        lemma_blobs_step_stable(l1, l2, at, repo, changes.drop_last());
        match blobs_step(l1, at, repo, changes.drop_last()) {
            Some((Ok(es), p)) => match changes.last().1 {
                Some(content) => {
                    lemma_text_step_stable(
                        l1,
                        l2,
                        p,
                        post_sha_args(git_endpoint(repo, "blobs"@)),
                        Some(encode_utf8(blob_payload(content))),
                        "gh api git/blobs"@,
                    );
                },
                None => {},
            },
            _ => {},
        }
    }
}

proof fn lemma_blobs_step_stop(log: Seq<GhCall>, at: int, repo: Seq<char>, changes: Seq<ChangeView>, k: int)
    requires
        0 <= k <= changes.len(),
        blobs_step(log, at, repo, changes.take(k)) matches Some((Err(_), _)),
    ensures
        blobs_step(log, at, repo, changes) == blobs_step(log, at, repo, changes.take(k)),
    decreases changes.len() - k,
{
    if k < changes.len() {
        assert(changes.take(k + 1).drop_last() =~= changes.take(k));
        lemma_blobs_step_stop(log, at, repo, changes, k + 1);
    } else {
        assert(changes.take(k) =~= changes);
    }
}

/// The entries as plain values, when a step yields them.
pub open spec fn entries_answer(r: Result<Vec<TreeEntry>, CliError>) -> Result<Seq<EntryView>, (Seq<char>, Seq<char>)> {
    match r {
        Ok(es) => Ok(entry_views(es@)),
        Err(e) => Err((e.message@, e.cause@)),
    }
}

/// Create a blob for each changed file with content, in order, and return
/// the tree entries of all the changes; the first failure stops it.
pub fn create_blobs<R: GhRunner>(runner: &mut R, repo: &str, changes: &[(String, Option<String>)]) -> (r: Result<
    Vec<TreeEntry>,
    CliError,
>)
    ensures
        keeps_log(old(runner).calls(), final(runner).calls()),
        blobs_step(final(runner).calls(), old(runner).calls().len() as int, repo@, change_views(changes@))
            == Some((entries_answer(r), final(runner).calls().len() as int)),
{
    let ghost l2 = runner.calls();
    let ghost p2 = l2.len() as int;
    let ghost cv = change_views(changes@);
    let mut entries: Vec<TreeEntry> = Vec::new();
    let mut i: usize = 0;
    assert(cv.take(0) =~= Seq::<ChangeView>::empty());
    assert(entry_views(entries@) =~= Seq::<EntryView>::empty());
    while i < changes.len()
        invariant
            i <= changes@.len(),
            cv == change_views(changes@),
            l2 == old(runner).calls(),
            p2 == l2.len(),
            keeps_log(l2, runner.calls()),
            blobs_step(runner.calls(), p2, repo@, cv.take(i as int)) == Some(
                (
                    Ok::<Seq<EntryView>, (Seq<char>, Seq<char>)>(entry_views(entries@)),
                    runner.calls().len() as int,
                ),
            ),
        decreases changes@.len() - i,
    {
        let ghost la = runner.calls();
        let ghost before = entries@;
        assert(cv.take(i + 1).drop_last() =~= cv.take(i as int));
        assert(cv.take(i + 1).last() == cv[i as int]);
        let path = changes[i].0.as_str();
        match &changes[i].1 {
            None => {
                let e = TreeEntry::for_change(path, None);
                entries.push(e);
                assert(entry_views(entries@) =~= entry_views(before).push(change_entry(path@, None)));
            },
            Some(content) => {
                let res = create_blob(runner, repo, content.as_str());
                proof {
                    lemma_blobs_step_stable(la, runner.calls(), p2, repo@, cv.take(i as int));
                }
                let sha = match res {
                    Ok(s) => s,
                    Err(e) => {
                        proof {
                            lemma_blobs_step_stop(runner.calls(), p2, repo@, cv, i + 1);
                        }
                        return Err(e);
                    },
                };
                let ghost sv = sha@;
                let e = TreeEntry::for_change(path, Some(sha));
                entries.push(e);
                assert(entry_views(entries@) =~= entry_views(before).push(change_entry(path@, Some(sv))));
            },
        }
        i = i + 1;
    }
    assert(cv.take(changes@.len() as int) =~= cv);
    Ok(entries)
}

proof fn lemma_base_step_stable(l1: Seq<GhCall>, l2: Seq<GhCall>, at: int, repo: Seq<char>, base: Option<
    Seq<char>,
>)
    requires
        keeps_log(l1, l2),
        base_branch_step(l1, at, repo, base) is Some,
    ensures
        base_branch_step(l2, at, repo, base) == base_branch_step(l1, at, repo, base),
{
    if base is None {
        lemma_text_step_stable(l1, l2, at, default_branch_args(repo), None, "gh repo view defaultBranchRef"@);
    }
}

proof fn lemma_blobs_step_forward(log: Seq<GhCall>, at: int, repo: Seq<char>, changes: Seq<ChangeView>)
    requires
        blobs_step(log, at, repo, changes) is Some,
    ensures
        match blobs_step(log, at, repo, changes) {
            Some(x) => at <= x.1,
            None => true,
        },
    decreases changes.len(),
{
    if changes.len() > 0 {
        lemma_blobs_step_forward(log, at, repo, changes.drop_last());
    }
}

/// A delivery that opens its pull request commits with the `--commit-message`
/// when one is given and with the title only otherwise, on a tree on top of
/// the base's head; and opens the pull request with the title and body given,
/// from the branch `{prefix}-{timestamp}`.
pub proof fn law_delivery_commits_with_chosen_message(
    log: Seq<GhCall>,
    at: int,
    repo: Seq<char>,
    args: PrArgs,
    changes: Seq<ChangeView>,
    timestamp: Seq<char>,
    url: Seq<char>,
    end: int,
)
    requires
        delivery_step(log, at, repo, args, changes, timestamp) == Some(
            (Ok::<Seq<char>, (Seq<char>, Seq<char>)>(url), end),
        ),
    ensures
        args.commit_message matches Some(m) ==> exists|k: int, tree: Seq<char>, head: Seq<char>|
            #![trigger log[k], commit_payload(m@, tree, head)]
            at <= k < end && log[k].0 == post_sha_args(git_endpoint(repo, "commits"@)) && log[k].1
                == Some(encode_utf8(commit_payload(m@, tree, head))),
        args.commit_message is None ==> exists|k: int, tree: Seq<char>, head: Seq<char>|
            #![trigger log[k], commit_payload(args.title@, tree, head)]
            at <= k < end && log[k].0 == post_sha_args(git_endpoint(repo, "commits"@)) && log[k].1
                == Some(encode_utf8(commit_payload(args.title@, tree, head))),
        exists|j: int, base: Seq<char>|
            #![trigger log[j], pr_create_args(repo, base, args.branch_prefix@ + "-"@ + timestamp, args.title@, args.body@)]
            at <= j < end && log[j].0 == pr_create_args(
                repo,
                base,
                args.branch_prefix@ + "-"@ + timestamp,
                args.title@,
                args.body@,
            ),
{
    let branch = args.branch_prefix@ + "-"@ + timestamp;
    let chosen = match args.commit_message {
        Some(m) => m@,
        None => args.title@,
    };
    match base_branch_step(log, at, repo, opt_text(args.base)) {
        Some((Ok(base), p1)) => match head_sha_step(log, p1, repo, base) {
            Some((Ok(head), p2)) => match blobs_step(log, p2, repo, changes) {
                Some((Ok(entries), p3)) => {
                    lemma_blobs_step_forward(log, p2, repo, changes);
                    match tree_step(log, p3, repo, head, entries) {
                        Some((Ok(tree), p4)) => match commit_step(
                            log,
                            p4,
                            repo,
                            commit_message_of(args),
                            tree,
                            head,
                        ) {
                            Some((Ok(commit), p5)) => match branch_ref_step(log, p5, repo, branch, commit) {
                                Some((Ok(_), p6)) => {
                                    assert(commit_message_of(args) == chosen);
                                    assert(log[p4].1 == Some(encode_utf8(commit_payload(chosen, tree, head))));
                                    assert(log[p6].0 == pr_create_args(repo, base, branch, args.title@, args.body@));
                                },
                                _ => {},
                            },
                            _ => {},
                        },
                        _ => {},
                    }
                },
                _ => {},
            },
            _ => {},
        },
        _ => {},
    }
}

/// Deliver the working-tree changes as a pull request and return its URL.
///
/// `changes` holds each changed file's path with its content, `None` for a
/// deleted file. The steps run in order: base branch, its head commit, a blob
/// for each file with content, the tree, a signed commit, the branch
/// `{branch_prefix}-{timestamp}` (force-moved when it exists), and the pull
/// request (the existing one's URL when there is one). The first failure
/// stops the delivery and is returned.
pub fn deliver_changes<R: GhRunner>(
    runner: &mut R,
    repo: &str,
    args: &PrArgs,
    changes: &[(String, Option<String>)],
    timestamp: &str,
) -> (r: Result<String, CliError>)
    ensures
        keeps_log(old(runner).calls(), final(runner).calls()),
        delivery_step(
            final(runner).calls(),
            old(runner).calls().len() as int,
            repo@,
            *args,
            change_views(changes@),
            timestamp@,
        ) == Some((text_view(r), final(runner).calls().len() as int)),
{
    let ghost l0 = runner.calls();
    let ghost p0 = l0.len() as int;
    let ghost cv = change_views(changes@);
    let ghost bv = opt_text(args.base);
    // The base branch.
    let base = match base_branch(runner, repo, args.base.clone()) {
        Ok(b) => b,
        Err(e) => {
            return Err(e);
        },
    };
    let ghost l1 = runner.calls();
    let ghost p1 = l1.len() as int;
    // Its head commit.
    let head = match head_sha(runner, repo, base.as_str()) {
        Ok(h) => h,
        Err(e) => {
            proof {
                lemma_base_step_stable(l1, runner.calls(), p0, repo@, bv);
            }
            return Err(e);
        },
    };
    let ghost l2 = runner.calls();
    let ghost p2 = l2.len() as int;
    proof {
        lemma_base_step_stable(l1, l2, p0, repo@, bv);
    }
    // A blob for each file with content.
    let entries = match create_blobs(runner, repo, changes) {
        Ok(es) => es,
        Err(e) => {
            proof {
                let l = runner.calls();
                lemma_base_step_stable(l2, l, p0, repo@, bv);
                lemma_text_step_stable(l2, l, p1, head_sha_args(repo@, base@), None, "gh api git/ref"@);
            }
            return Err(e);
        },
    };
    proof {
        let l = runner.calls();
        lemma_base_step_stable(l2, l, p0, repo@, bv);
        lemma_text_step_stable(l2, l, p1, head_sha_args(repo@, base@), None, "gh api git/ref"@);
    }
    let ghost l3 = runner.calls();
    let ghost p3 = l3.len() as int;
    let ghost ev = entry_views(entries@);
    // The tree.
    let tree = create_tree(runner, repo, head.as_str(), entries.as_slice());
    proof {
        let l = runner.calls();
        lemma_base_step_stable(l3, l, p0, repo@, bv);
        lemma_text_step_stable(l3, l, p1, head_sha_args(repo@, base@), None, "gh api git/ref"@);
        lemma_blobs_step_stable(l3, l, p2, repo@, cv);
    }
    let tree = match tree {
        Ok(t) => t,
        Err(e) => {
            return Err(e);
        },
    };
    let ghost l4 = runner.calls();
    let ghost p4 = l4.len() as int;
    // The commit.
    let message = commit_message_for(args);
    let commit = create_commit(runner, repo, message.as_str(), tree.as_str(), head.as_str());
    proof {
        let l = runner.calls();
        lemma_base_step_stable(l4, l, p0, repo@, bv);
        lemma_text_step_stable(l4, l, p1, head_sha_args(repo@, base@), None, "gh api git/ref"@);
        lemma_blobs_step_stable(l4, l, p2, repo@, cv);
        lemma_text_step_stable(
            l4,
            l,
            p3,
            post_sha_args(git_endpoint(repo@, "trees"@)),
            Some(encode_utf8(tree_payload(head@, ev))),
            "gh api git/trees"@,
        );
    }
    let commit = match commit {
        Ok(c) => c,
        Err(e) => {
            return Err(e);
        },
    };
    let ghost l5 = runner.calls();
    let ghost p5 = l5.len() as int;
    // The branch.
    let branch = branch_name(args.branch_prefix.as_str(), timestamp);
    let made = create_branch_ref(runner, repo, branch.as_str(), commit.as_str());
    proof {
        let l = runner.calls();
        lemma_base_step_stable(l5, l, p0, repo@, bv);
        lemma_text_step_stable(l5, l, p1, head_sha_args(repo@, base@), None, "gh api git/ref"@);
        lemma_blobs_step_stable(l5, l, p2, repo@, cv);
        lemma_text_step_stable(
            l5,
            l,
            p3,
            post_sha_args(git_endpoint(repo@, "trees"@)),
            Some(encode_utf8(tree_payload(head@, ev))),
            "gh api git/trees"@,
        );
        lemma_text_step_stable(
            l5,
            l,
            p4,
            post_sha_args(git_endpoint(repo@, "commits"@)),
            Some(encode_utf8(commit_payload(commit_message_of(*args), tree@, head@))),
            "gh api git/commits"@,
        );
    }
    match made {
        Ok(()) => {},
        Err(e) => {
            return Err(e);
        },
    }
    let ghost l6 = runner.calls();
    let ghost p6 = l6.len() as int;
    // The pull request.
    let url = create_pr(runner, repo, base.as_str(), branch.as_str(), args.title.as_str(), args.body.as_str());
    proof {
        let l = runner.calls();
        lemma_base_step_stable(l6, l, p0, repo@, bv);
        lemma_text_step_stable(l6, l, p1, head_sha_args(repo@, base@), None, "gh api git/ref"@);
        lemma_blobs_step_stable(l6, l, p2, repo@, cv);
        lemma_text_step_stable(
            l6,
            l,
            p3,
            post_sha_args(git_endpoint(repo@, "trees"@)),
            Some(encode_utf8(tree_payload(head@, ev))),
            "gh api git/trees"@,
        );
        lemma_text_step_stable(
            l6,
            l,
            p4,
            post_sha_args(git_endpoint(repo@, "commits"@)),
            Some(encode_utf8(commit_payload(commit_message_of(*args), tree@, head@))),
            "gh api git/commits"@,
        );
        lemma_branch_ref_step_stable(l6, l, p5, repo@, branch@, commit@);
    }
    url
}

/// Message printed when the working tree has no changes.
pub const NO_DRIFT_MESSAGE: &'static str = "No file drift detected \u{2014} nothing to commit.";

} // verus!
