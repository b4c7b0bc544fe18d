//! Reading the upstream repository through `gh api`: what each answer means.
use vstd::prelude::*;
use vstd::utf8::{decode_utf8, valid_utf8};

use crate::runner::{decode_lossy, exited_ok, lossy_trimmed, utf8_lossy, CliError, GhOutput};
use crate::text::{contains, push_str, str_contains, str_equal, string_from_chars, trim};

verus! {

/// Result of fetching one file of the upstream repository.
#[derive(Debug, PartialEq, Eq)]
pub enum FetchResult {
    /// The file does not exist upstream.
    NotFound,
    /// The file's raw content.
    Content(Vec<u8>),
}

/// An error with `message` and no cause.
fn plain_error(message: String) -> (e: CliError)
    ensures
        e.message@ == message@,
        e.cause@.len() == 0,
{
    CliError { message, cause: String::new() }
}

/// Message of a failed `gh api` call that printed `stderr`.
pub open spec fn api_failure_message(stderr: Seq<u8>) -> Seq<char> {
    "`gh api` failed: "@ + utf8_lossy(stderr)
}

fn api_failure(out: &GhOutput) -> (e: CliError)
    ensures
        e.message@ == api_failure_message(out.stderr@),
        e.cause@.len() == 0,
{
    let stderr = decode_lossy(out.stderr.as_slice());
    let mut m: Vec<char> = Vec::new();
    push_str(&mut m, "`gh api` failed: ");
    push_str(&mut m, stderr.as_str());
    assert(m@ =~= api_failure_message(out.stderr@));
    plain_error(string_from_chars(m.as_slice()))
}

/// What the raw-content request for one file answered: its bytes, a missing
/// file (an `HTTP 404` failure), or an error.
pub fn fetch_outcome(out: GhOutput) -> (r: Result<FetchResult, CliError>)
    ensures
        exited_ok(out) ==> (r matches Ok(FetchResult::Content(c)) && c@ == out.stdout@),
        !exited_ok(out) && contains(utf8_lossy(out.stderr@), "HTTP 404"@) ==> r matches Ok(
            FetchResult::NotFound,
        ),
        !exited_ok(out) && !contains(utf8_lossy(out.stderr@), "HTTP 404"@) ==> (r matches Err(e)
            && e.message@ == api_failure_message(out.stderr@) && e.cause@.len() == 0),
{
    if !out.success() {
        let stderr = decode_lossy(out.stderr.as_slice());
        if str_contains(stderr.as_str(), "HTTP 404") {
            return Ok(FetchResult::NotFound);
        }
        return Err(api_failure(&out));
    }
    Ok(FetchResult::Content(out.stdout))
}

/// The commit SHA a tag lookup printed, trimmed, or the failure.
pub fn tag_sha_outcome(out: &GhOutput) -> (r: Result<String, CliError>)
    ensures
        exited_ok(*out) ==> (r matches Ok(s) && s@ == trim(utf8_lossy(out.stdout@))),
        !exited_ok(*out) ==> (r matches Err(e) && e.message@ == api_failure_message(out.stderr@)
            && e.cause@.len() == 0),
{
    if !out.success() {
        return Err(api_failure(out));
    }
    Ok(lossy_trimmed(out.stdout.as_slice()))
}

/// Checks the outcome of a tree listing before its JSON is read.
pub fn tree_listing_outcome(out: &GhOutput) -> (r: Result<(), CliError>)
    ensures
        r is Ok <==> exited_ok(*out),
        r matches Err(e) ==> e.message@ == api_failure_message(out.stderr@) && e.cause@.len() == 0,
{
    if !out.success() {
        return Err(api_failure(out));
    }
    Ok(())
}

/// One entry of a repository tree listing.
#[derive(Debug, Clone)]
pub struct RemoteTreeEntry {
    /// Path of the entry.
    pub path: String,
    /// Object type: `blob` for files, `tree` for directories.
    pub type_: String,
}

/// Message of the error for a listing that GitHub cut short.
pub open spec fn truncated_message(repo: Seq<char>) -> Seq<char> {
    "repository '"@ + repo + "' has too many files; the tree response was truncated"@
}

/// The paths and types of `entries`, as plain values.
pub open spec fn entries_view(entries: Seq<RemoteTreeEntry>) -> Seq<(Seq<char>, Seq<char>)> {
    entries.map_values(|e: RemoteTreeEntry| (e.path@, e.type_@))
}

/// The file entries of a listing: those of type `blob`, in order.
pub open spec fn blobs_of(entries: Seq<(Seq<char>, Seq<char>)>) -> Seq<(Seq<char>, Seq<char>)> {
    entries.filter(|e: (Seq<char>, Seq<char>)| e.1 == "blob"@)
}

/// A listing's files are its entries of type `blob`, kept in order, whatever
/// their paths: none for an empty listing, and one more entry appended to a
/// listing adds it to the files exactly when its type is `blob`.
pub proof fn law_blobs_keep_every_blob(
    entries: Seq<(Seq<char>, Seq<char>)>,
    e: (Seq<char>, Seq<char>),
)
    ensures
        blobs_of(Seq::<(Seq<char>, Seq<char>)>::empty()) == Seq::<(Seq<char>, Seq<char>)>::empty(),
        e.1 == "blob"@ ==> blobs_of(entries.push(e)) == blobs_of(entries).push(e),
        e.1 != "blob"@ ==> blobs_of(entries.push(e)) == blobs_of(entries),
{
    reveal_with_fuel(Seq::filter, 1);
    assert(entries.push(e).drop_last() =~= entries);
    assert(blobs_of(Seq::<(Seq<char>, Seq<char>)>::empty()) =~= Seq::<(Seq<char>, Seq<char>)>::empty());
}

/// The files of a tree listing of `repo`; an error when the listing was truncated.
pub fn blob_entries(repo: &str, truncated: bool, entries: Vec<RemoteTreeEntry>) -> (r: Result<
    Vec<RemoteTreeEntry>,
    CliError,
>)
    ensures
        truncated ==> (r matches Err(e) && e.message@ == truncated_message(repo@) && e.cause@.len()
            == 0),
        !truncated ==> (r matches Ok(files) && entries_view(files@) == blobs_of(
            entries_view(entries@),
        )),
{
    if truncated {
        let mut m: Vec<char> = Vec::new();
        push_str(&mut m, "repository '");
        push_str(&mut m, repo);
        push_str(&mut m, "' has too many files; the tree response was truncated");
        assert(m@ =~= truncated_message(repo@));
        return Err(plain_error(string_from_chars(m.as_slice())));
    }
    let mut files: Vec<RemoteTreeEntry> = Vec::new();
    let mut i: usize = 0;
    let ghost all = entries_view(entries@);
    assert(all.take(0) =~= Seq::<(Seq<char>, Seq<char>)>::empty());
    while i < entries.len()
        invariant
            i <= entries@.len(),
            all == entries_view(entries@),
            entries_view(files@) == blobs_of(all.take(i as int)),
        decreases entries@.len() - i,
    {
        let e = &entries[i];
        proof {
            assert(all.take(i + 1).drop_last() =~= all.take(i as int));
            reveal_with_fuel(Seq::filter, 1);
        }
        if str_equal(e.type_.as_str(), "blob") {
            files.push(e.clone_entry());
            assert(entries_view(files@) =~= blobs_of(all.take(i + 1)));
        } else {
            assert(blobs_of(all.take(i + 1)) =~= blobs_of(all.take(i as int)));
        }
        i = i + 1;
    }
    assert(all.take(entries@.len() as int) =~= all);
    Ok(files)
}

impl RemoteTreeEntry {
    /// A copy of this entry.
    pub fn clone_entry(&self) -> (r: RemoteTreeEntry)
        ensures
            r.path@ == self.path@,
            r.type_@ == self.type_@,
    {
        RemoteTreeEntry { path: self.path.clone(), type_: self.type_.clone() }
    }
}

// ---------------------------------------------------------------------------
// The upstream configuration file
// ---------------------------------------------------------------------------

/// The UTF-8 decoding error of std.
#[verifier::external_type_specification]
#[verifier::external_body]
pub struct ExFromUtf8Error(std::string::FromUtf8Error);

/// `bytes` as a `String` when they are UTF-8.
///
/// Trusted: calls std's `String::from_utf8`, which std documents as
/// succeeding exactly when the bytes are valid UTF-8, with those characters.
#[verifier::external_body]
fn utf8_string(bytes: Vec<u8>) -> (r: Result<String, std::string::FromUtf8Error>)
    ensures
        r is Ok <==> valid_utf8(bytes@),
        r matches Ok(s) ==> s@ == decode_utf8(bytes@),
{
    String::from_utf8(bytes)
}

/// The text of a UTF-8 decoding error.
///
/// Trusted: calls std's `Display` of `FromUtf8Error` (`to_string`); nothing
/// is stated of the text.
#[verifier::external_body]
fn utf8_error_text(e: &std::string::FromUtf8Error) -> String {
    e.to_string()
}

/// Message of the error for a repository without a gh-sync config.
pub open spec fn missing_config_message(repo: Seq<char>) -> Seq<char> {
    "upstream repository '"@ + repo
        + "' does not have a gh-sync config at .github/gh-sync/config.yaml\nhint: use `--select` to interactively generate a config instead"@
}

/// The text of the upstream config that was fetched for `repo`: an error
/// when there is none, or when it is not UTF-8.
pub fn upstream_config_text(repo: &str, fetched: FetchResult) -> (r: Result<String, CliError>)
    ensures
        match fetched {
            FetchResult::NotFound => r matches Err(e) && e.message@ == missing_config_message(repo@)
                && e.cause@.len() == 0,
            FetchResult::Content(bytes) => if valid_utf8(bytes@) {
                r matches Ok(s) && s@ == decode_utf8(bytes@)
            } else {
                r matches Err(e) && e.message@ == "upstream config contains non-UTF-8 bytes"@
            },
        },
{
    match fetched {
        FetchResult::NotFound => {
            let mut m: Vec<char> = Vec::new();
            push_str(&mut m, "upstream repository '");
            push_str(&mut m, repo);
            push_str(
                &mut m,
                "' does not have a gh-sync config at .github/gh-sync/config.yaml\nhint: use `--select` to interactively generate a config instead",
            );
            assert(m@ =~= missing_config_message(repo@));
            Err(plain_error(string_from_chars(m.as_slice())))
        },
        FetchResult::Content(bytes) => {
            match utf8_string(bytes) {
                Ok(s) => Ok(s),
                Err(e) => {
                    let cause = utf8_error_text(&e);
                    Err(CliError { message: "upstream config contains non-UTF-8 bytes".to_owned(), cause })
                },
            }
        },
    }
}

} // verus!
