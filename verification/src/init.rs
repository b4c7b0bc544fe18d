//! The `init` subcommand: arguments, repository-name validation and the
//! decisions taken while writing a configuration and its workflow.
use vstd::prelude::*;

use crate::runner::CliError;
use crate::text::{chars_of, push_str, str_equal, string_from_chars};

verus! {

/// Arguments for the `init` subcommand.
#[derive(Debug, Clone)]
pub struct InitArgs {
    /// Upstream repository in `owner/name` format
    pub repo: Option<String>,
    /// Git ref to use (branch, tag, or commit SHA)
    pub ref_: String,
    /// Output path for the generated configuration file
    pub output: String,
    /// Copy the upstream's own gh-sync config (non-interactive)
    pub from_upstream: bool,
    /// Interactively select files from the upstream repository
    pub select: bool,
    /// Overwrite an existing config file without prompting
    pub force: bool,
    /// Generate only the GitHub Actions workflow file (skip config and schema)
    pub with_workflow: bool,
}

// ---------------------------------------------------------------------------
// Repository names
// ---------------------------------------------------------------------------

/// A character allowed in an owner or repository name: ASCII letters and
/// digits, `.`, `_` and `-`.
pub open spec fn is_repo_char(c: char) -> bool {
    let u = c as u32;
    ||| 0x61 <= u <= 0x7A
    ||| 0x41 <= u <= 0x5A
    ||| 0x30 <= u <= 0x39
    ||| c == '.'
    ||| c == '_'
    ||| c == '-'
}

/// A non-empty owner or repository name.
pub open spec fn valid_segment(s: Seq<char>) -> bool {
    s.len() > 0 && forall|k: int| 0 <= k < s.len() ==> is_repo_char(#[trigger] s[k])
}

/// `s` is `owner/name`: two valid segments around a single `/`.
pub open spec fn valid_repo(s: Seq<char>) -> bool {
    exists|i: int|
        0 <= i < s.len() && s[i] == '/' && valid_segment(#[trigger] s.take(i)) && valid_segment(
            s.skip(i + 1),
        )
}

fn repo_char(c: char) -> (r: bool)
    ensures
        r == is_repo_char(c),
{
    let u = c as u32;
    (0x61 <= u && u <= 0x7A) || (0x41 <= u && u <= 0x5A) || (0x30 <= u && u <= 0x39) || c == '.'
        || c == '_' || c == '-'
}

/// Whether `s[from..to]` is a valid segment.
fn segment_ok(s: &[char], from: usize, to: usize) -> (r: bool)
    requires
        from <= to <= s@.len(),
    ensures
        r == valid_segment(s@.subrange(from as int, to as int)),
{
    if from == to {
        return false;
    }
    let mut k = from;
    while k < to
        invariant
            from <= k <= to <= s@.len(),
            forall|m: int| from <= m < k ==> is_repo_char(s@[m]),
        decreases to - k,
    {
        if !repo_char(s[k]) {
            assert(s@.subrange(from as int, to as int)[k - from] == s@[k as int]);
            return false;
        }
        k = k + 1;
    }
    assert forall|m: int| 0 <= m < to - from implies is_repo_char(
        #[trigger] s@.subrange(from as int, to as int)[m],
    ) by {
        assert(s@.subrange(from as int, to as int)[m] == s@[from + m]);
    }
    true
}

/// Return `true` when `repo` matches the `owner/name` pattern.
pub fn is_valid_repo(repo: &str) -> (r: bool)
    ensures
        r == valid_repo(repo@),
{
    let s = chars_of(repo);
    let mut i: usize = 0;
    while i < s.len() && s[i] != '/'
        invariant
            i <= s@.len(),
            forall|m: int| 0 <= m < i ==> s@[m] != '/',
        decreases s@.len() - i,
    {
        i = i + 1;
    }
    if i == s.len() {
        return false;
    }
    let mut j = i + 1;
    while j < s.len() && s[j] != '/'
        invariant
            i < j <= s@.len(),
            forall|m: int| i < m < j ==> s@[m] != '/',
        decreases s@.len() - j,
    {
        j = j + 1;
    }
    let ghost seq = s@;
    proof {
        assert(seq.take(i as int) =~= seq.subrange(0, i as int));
        assert(seq.skip(i + 1) =~= seq.subrange(i + 1, seq.len() as int));
        assert forall|k: int|
            0 <= k < seq.len() && seq[k] == '/' && valid_segment(#[trigger] seq.take(k))
                && valid_segment(seq.skip(k + 1)) implies k == i by {
            if k > i {
                assert(seq.take(k)[i as int] == '/');
            }
        }
    }
    if j < s.len() {
        proof {
            if valid_repo(seq) {
                assert(seq.skip(i + 1)[j - i - 1] == '/');
            }
        }
        return false;
    }
    let owner_ok = segment_ok(s.as_slice(), 0, i);
    let name_ok = segment_ok(s.as_slice(), i + 1, s.len());
    owner_ok && name_ok
}

/// Message of the error for a malformed repository name.
pub open spec fn invalid_repo_message(repo: Seq<char>) -> Seq<char> {
    "invalid repository '"@ + repo + "': must be owner/name format (e.g. naa0yama/boilerplate-rust)"@
}

/// Validate repo format and return a descriptive error if invalid.
pub fn validate_repo_format(repo: &str) -> (r: Result<(), CliError>)
    ensures
        r is Ok <==> valid_repo(repo@),
        r matches Err(e) ==> e.message@ == invalid_repo_message(repo@) && e.cause@.len() == 0,
{
    if is_valid_repo(repo) {
        Ok(())
    } else {
        let mut m: Vec<char> = Vec::new();
        push_str(&mut m, "invalid repository '");
        push_str(&mut m, repo);
        push_str(&mut m, "': must be owner/name format (e.g. naa0yama/boilerplate-rust)");
        let message = string_from_chars(m.as_slice());
        assert(message@ =~= invalid_repo_message(repo@));
        Err(CliError { message, cause: String::new() })
    }
}

// ---------------------------------------------------------------------------
// Decisions of `init`
// ---------------------------------------------------------------------------

/// An error with `message` and no cause.
fn plain_error(message: String) -> (e: CliError)
    ensures
        e.message@ == message@,
        e.cause@.len() == 0,
{
    CliError { message, cause: String::new() }
}

/// Message refusing to overwrite `path` without `--force`.
pub open spec fn exists_use_force_message(path: Seq<char>) -> Seq<char> {
    "'"@ + path + "' already exists; use --force to overwrite"@
}

fn exists_use_force(path: &str) -> (s: String)
    ensures
        s@ == exists_use_force_message(path@),
{
    let mut m: Vec<char> = Vec::new();
    push_str(&mut m, "'");
    push_str(&mut m, path);
    push_str(&mut m, "' already exists; use --force to overwrite");
    assert(m@ =~= exists_use_force_message(path@));
    string_from_chars(m.as_slice())
}

/// What to do about the configuration file before writing it.
#[derive(Debug)]
pub enum OutputCheck {
    /// Write it: it does not exist, or `--force` was given.
    Proceed,
    /// Ask the user whether to overwrite it.
    Confirm,
    /// Stop with this error: it exists and nobody can be asked.
    Refuse(CliError),
}

/// Decides what to do about an output file at `path` that may exist.
pub fn check_existing_output(path: &str, present: bool, force: bool, interactive: bool) -> (r: OutputCheck)
    ensures
        (!present || force) ==> r is Proceed,
        (present && !force && interactive) ==> r is Confirm,
        (present && !force && !interactive) ==> (r matches OutputCheck::Refuse(e)
            && e.message@ == exists_use_force_message(path@) && e.cause@.len() == 0),
{
    if !present || force {
        OutputCheck::Proceed
    } else if interactive {
        OutputCheck::Confirm
    } else {
        let message = exists_use_force(path);
        OutputCheck::Refuse(plain_error(message))
    }
}

/// Message when no repository was given and nobody can be asked.
pub open spec fn repo_required_message() -> Seq<char> {
    "--repo is required in non-interactive mode\nexample: gh-sync init --repo owner/name --from-upstream"@
}

/// Where the upstream repository comes from.
#[derive(Debug)]
pub enum RepoChoice {
    /// It was given, and is a valid `owner/name`.
    Given(String),
    /// Ask the user for it.
    Prompt,
}

/// Decides the upstream repository from the `--repo` flag.
pub fn choose_repo(repo: Option<&str>, interactive: bool) -> (r: Result<RepoChoice, CliError>)
    ensures
        match repo {
            Some(name) => if valid_repo(name@) {
                r matches Ok(RepoChoice::Given(s)) && s@ == name@
            } else {
                r matches Err(e) && e.message@ == invalid_repo_message(name@) && e.cause@.len() == 0
            },
            None => if interactive {
                r matches Ok(RepoChoice::Prompt)
            } else {
                r matches Err(e) && e.message@ == repo_required_message() && e.cause@.len() == 0
            },
        },
{
    match repo {
        Some(name) => {
            match validate_repo_format(name) {
                Ok(()) => Ok(RepoChoice::Given(name.to_owned())),
                Err(e) => Err(e),
            }
        },
        None => {
            if interactive {
                Ok(RepoChoice::Prompt)
            } else {
                let message = "--repo is required in non-interactive mode\nexample: gh-sync init --repo owner/name --from-upstream".to_owned();
                Err(plain_error(message))
            }
        },
    }
}

/// How the configuration is generated.
#[derive(Debug, Clone, Copy, PartialEq, Eq)]
pub enum InitMode {
    /// Copy the upstream's own gh-sync config.
    FromUpstream,
    /// Select files interactively.
    Select,
}

/// Mode as given, or to be asked for.
#[derive(Debug)]
pub enum ModeChoice {
    /// The flags name the mode.
    Chosen(InitMode),
    /// Ask the user for it.
    Prompt,
}

/// Message when no mode was given and nobody can be asked.
pub open spec fn mode_required_message() -> Seq<char> {
    "no mode specified; use --from-upstream or --select\nexample: gh-sync init --repo owner/name --from-upstream"@
}

/// Decides the mode: `--from-upstream` first, then `--select`, else ask when possible.
pub fn choose_mode(from_upstream: bool, select: bool, interactive: bool) -> (r: Result<ModeChoice, CliError>)
    ensures
        from_upstream ==> r matches Ok(ModeChoice::Chosen(InitMode::FromUpstream)),
        !from_upstream && select ==> r matches Ok(ModeChoice::Chosen(InitMode::Select)),
        !from_upstream && !select && interactive ==> r matches Ok(ModeChoice::Prompt),
        !from_upstream && !select && !interactive ==> (r matches Err(e) && e.message@
            == mode_required_message() && e.cause@.len() == 0),
{
    if from_upstream {
        Ok(ModeChoice::Chosen(InitMode::FromUpstream))
    } else if select {
        Ok(ModeChoice::Chosen(InitMode::Select))
    } else if interactive {
        Ok(ModeChoice::Prompt)
    } else {
        let message = "no mode specified; use --from-upstream or --select\nexample: gh-sync init --repo owner/name --from-upstream".to_owned();
        Err(plain_error(message))
    }
}

/// The mode picked in the prompt, whose first item copies the upstream config.
pub fn mode_from_index(index: usize) -> (m: InitMode)
    ensures
        m == (if index == 0 {
            InitMode::FromUpstream
        } else {
            InitMode::Select
        }),
{
    if index == 0 {
        InitMode::FromUpstream
    } else {
        InitMode::Select
    }
}

/// What to do about a file that exists, once its content is known.
#[derive(Debug)]
pub enum OverwriteAnswer {
    /// It already holds the new content: leave it.
    UpToDate,
    /// Stop with this error: it differs and nobody can be asked.
    Refuse(CliError),
    /// Show the difference and ask the user.
    AskWithDiff,
}

/// Whether an existing file must be read and compared before it is overwritten:
/// only when it exists and `--force` was not given.
pub fn overwrite_needs_check(present: bool, force: bool) -> (r: bool)
    ensures
        r == (present && !force),
{
    present && !force
}

/// Decides about overwriting `path`, which holds `existing`, with `new_content`.
pub fn compare_for_overwrite(path: &str, existing: &str, new_content: &str, interactive: bool) -> (r:
    OverwriteAnswer)
    ensures
        existing@ == new_content@ ==> r is UpToDate,
        existing@ != new_content@ && !interactive ==> (r matches OverwriteAnswer::Refuse(e)
            && e.message@ == exists_use_force_message(path@) && e.cause@.len() == 0),
        existing@ != new_content@ && interactive ==> r is AskWithDiff,
{
    if str_equal(existing, new_content) {
        OverwriteAnswer::UpToDate
    } else if !interactive {
        let message = exists_use_force(path);
        OverwriteAnswer::Refuse(plain_error(message))
    } else {
        OverwriteAnswer::AskWithDiff
    }
}

// ---------------------------------------------------------------------------
// Upstream configuration
// ---------------------------------------------------------------------------

/// Where gh-sync keeps its configuration in a repository.
pub const CONFIG_PATH: &'static str = ".github/gh-sync/config.yaml";

/// Comment that points YAML editors at the JSON schema written beside the config.
pub const SCHEMA_COMMENT: &'static str = "# yaml-language-server: $schema=./schema.json\n";

/// `repo@ref:.github/gh-sync/config.yaml`, the reference to an upstream manifest.
pub open spec fn manifest_ref(repo: Seq<char>, ref_: Seq<char>) -> Seq<char> {
    repo + "@"@ + ref_ + ":"@ + CONFIG_PATH@
}

/// The reference to the gh-sync config of `repo` at `ref_`.
pub fn upstream_manifest_ref(repo: &str, ref_: &str) -> (r: String)
    ensures
        r@ == manifest_ref(repo@, ref_@),
{
    let mut m: Vec<char> = Vec::new();
    push_str(&mut m, repo);
    push_str(&mut m, "@");
    push_str(&mut m, ref_);
    push_str(&mut m, ":");
    push_str(&mut m, CONFIG_PATH);
    assert(m@ =~= manifest_ref(repo@, ref_@));
    string_from_chars(m.as_slice())
}

/// The config `text` with the schema comment put in front of it.
pub fn with_schema_comment(text: &str) -> (r: String)
    ensures
        r@ == SCHEMA_COMMENT@ + text@,
{
    let mut m: Vec<char> = Vec::new();
    push_str(&mut m, SCHEMA_COMMENT);
    push_str(&mut m, text);
    string_from_chars(m.as_slice())
}

/// The characters allowed in an owner or a name: ASCII letters and digits,
/// `.`, `_` and `-`.
pub open spec fn owner_or_name_char(c: char) -> bool {
    ('a' <= c && c <= 'z') || ('A' <= c && c <= 'Z') || ('0' <= c && c <= '9') || c == '.' || c
        == '_' || c == '-'
}

proof fn lemma_repo_char(c: char)
    ensures
        is_repo_char(c) == owner_or_name_char(c),
{
}

/// A repository argument is valid exactly when it is an owner, a `/` and a
/// name, both non-empty and made only of ASCII letters and digits, `.`, `_`
/// and `-`.
pub proof fn law_valid_repo_is_owner_slash_name(owner: Seq<char>, name: Seq<char>, s: Seq<char>)
    ensures
        owner.len() > 0 && name.len() > 0 && (forall|k: int|
            0 <= k < owner.len() ==> owner_or_name_char(#[trigger] owner[k])) && (forall|k: int|
            0 <= k < name.len() ==> owner_or_name_char(#[trigger] name[k])) ==> valid_repo(
            owner + "/"@ + name,
        ),
        valid_repo(s) ==> exists|i: int|
            0 < i < s.len() - 1 && #[trigger] s[i] == '/' && (forall|k: int|
                0 <= k < s.len() && k != i ==> owner_or_name_char(#[trigger] s[k])),
{
    reveal_strlit("/");
    let t = owner + "/"@ + name;
    if owner.len() > 0 && name.len() > 0 && (forall|k: int|
        0 <= k < owner.len() ==> owner_or_name_char(#[trigger] owner[k])) && (forall|k: int|
        0 <= k < name.len() ==> owner_or_name_char(#[trigger] name[k])) {
        let i = owner.len() as int;
        assert(t.take(i) =~= owner);
        assert(t.skip(i + 1) =~= name);
        assert(t[i] == '/');
        assert forall|k: int| 0 <= k < owner.len() implies is_repo_char(#[trigger] t.take(i)[k]) by {
            assert(owner_or_name_char(owner[k]));
        }
        assert forall|k: int| 0 <= k < name.len() implies is_repo_char(#[trigger] t.skip(i + 1)[k]) by {
            assert(owner_or_name_char(name[k]));
        }
        assert(valid_segment(t.take(i)) && valid_segment(t.skip(i + 1)));
    }
    if valid_repo(s) {
        let i = choose|i: int|
            0 <= i < s.len() && s[i] == '/' && valid_segment(#[trigger] s.take(i)) && valid_segment(
                s.skip(i + 1),
            );
        assert forall|k: int| 0 <= k < s.len() && k != i implies owner_or_name_char(#[trigger] s[k]) by {
            if k < i {
                assert(s.take(i)[k] == s[k]);
                assert(is_repo_char(s.take(i)[k]));
            } else {
                assert(s.skip(i + 1)[k - i - 1] == s[k]);
                assert(is_repo_char(s.skip(i + 1)[k - i - 1]));
            }
            lemma_repo_char(s[k]);
        }
    }
}

// ---------------------------------------------------------------------------
// The diff shown before an overwrite
// ---------------------------------------------------------------------------

/// One change of a line diff: its tag (0 equal, 1 deleted, 2 inserted, in the
/// order of `similar::ChangeTag`'s variants) and its line, newline included.
pub type DiffChange = (u8, Seq<char>);

/// The groups of a line diff of `old` against `new` with `context` lines of
/// context, as `similar` gives them: for each group, for each of its
/// operations, the changes that the operation encodes, in order.
pub uninterp spec fn line_diff_groups(old: Seq<char>, new: Seq<char>, context: nat) -> Seq<
    Seq<Seq<DiffChange>>,
>;

/// The changes of one operation, as plain values.
pub open spec fn op_view(v: Vec<(u8, String)>) -> Seq<DiffChange> {
    v@.map_values(|c: (u8, String)| (c.0, c.1@))
}

/// The operations of one group, as plain values.
pub open spec fn group_view(v: Vec<Vec<(u8, String)>>) -> Seq<Seq<DiffChange>> {
    v@.map_values(|o: Vec<(u8, String)>| op_view(o))
}

/// The groups, as plain values.
pub open spec fn groups_view(v: Seq<Vec<Vec<(u8, String)>>>) -> Seq<Seq<Seq<DiffChange>>> {
    v.map_values(|g: Vec<Vec<(u8, String)>>| group_view(g))
}

/// The grouped line diff of `old` against `new` with `context` lines of context.
///
/// Trusted: calls `similar::TextDiff::from_lines(old, new)`, then its
/// `grouped_ops(context)` and, for each operation, `iter_changes`; each
/// change's `ChangeTag` is told apart by its variant and its `value()` copied.
/// With no deadline configured the diff depends on its arguments alone; its
/// result is named [`line_diff_groups`] and nothing more is stated of it.
#[verifier::external_body]
fn grouped_line_diff(old: &str, new: &str, context: usize) -> (groups: Vec<Vec<Vec<(u8, String)>>>)
    ensures
        groups_view(groups@) == line_diff_groups(old@, new@, context as nat),
{
    let diff = similar::TextDiff::from_lines(old, new);
    diff.grouped_ops(context).iter().map(|group| {
        group.iter().map(|op| {
            diff.iter_changes(op).map(|change| {
                let tag: u8 = match change.tag() {
                    similar::ChangeTag::Equal => 0,
                    similar::ChangeTag::Delete => 1,
                    similar::ChangeTag::Insert => 2,
                };
                (tag, change.value().to_owned())
            }).collect()
        }).collect()
    }).collect()
}

/// The changes of the operations `ops`, one after the other.
pub open spec fn flatten_ops(ops: Seq<Seq<DiffChange>>) -> Seq<DiffChange>
    decreases ops.len(),
{
    if ops.len() == 0 {
        seq![]
    } else {
        flatten_ops(ops.drop_last()) + ops.last()
    }
}

/// The changes of the groups `groups`, one after the other.
pub open spec fn flatten_groups(groups: Seq<Seq<Seq<DiffChange>>>) -> Seq<DiffChange>
    decreases groups.len(),
{
    if groups.len() == 0 {
        seq![]
    } else {
        flatten_groups(groups.drop_last()) + flatten_ops(groups.last())
    }
}

/// Every change of every group is shown, group after group and operation
/// after operation: putting groups (or operations) side by side puts their
/// changes side by side, and one group (or operation) gives its own changes.
pub proof fn law_diff_shows_every_change(
    g1: Seq<Seq<Seq<DiffChange>>>,
    g2: Seq<Seq<Seq<DiffChange>>>,
    o1: Seq<Seq<DiffChange>>,
    o2: Seq<Seq<DiffChange>>,
    op: Seq<DiffChange>,
)
    ensures
        flatten_groups(g1 + g2) == flatten_groups(g1) + flatten_groups(g2),
        flatten_groups(seq![o1]) == flatten_ops(o1),
        flatten_ops(o1 + o2) == flatten_ops(o1) + flatten_ops(o2),
        flatten_ops(seq![op]) == op,
    decreases g2.len() + o2.len(),
{
    if g2.len() == 0 {
        assert(g1 + g2 =~= g1);
        assert(flatten_groups(g1) + flatten_groups(g2) =~= flatten_groups(g1));
    } else {
        law_diff_shows_every_change(g1, g2.drop_last(), o1, Seq::<Seq<DiffChange>>::empty(), op);
        assert((g1 + g2).drop_last() =~= g1 + g2.drop_last());
        assert((g1 + g2).last() == g2.last());
        assert(flatten_groups(g1) + (flatten_groups(g2.drop_last()) + flatten_ops(g2.last()))
            =~= flatten_groups(g1) + flatten_groups(g2.drop_last()) + flatten_ops(g2.last()));
    }
    if o2.len() == 0 {
        assert(o1 + o2 =~= o1);
        assert(flatten_ops(o1) + flatten_ops(o2) =~= flatten_ops(o1));
    } else {
        law_diff_shows_every_change(g1, Seq::<Seq<Seq<DiffChange>>>::empty(), o1, o2.drop_last(), op);
        assert((o1 + o2).drop_last() =~= o1 + o2.drop_last());
        assert((o1 + o2).last() == o2.last());
        assert(flatten_ops(o1) + (flatten_ops(o2.drop_last()) + o2.last()) =~= flatten_ops(o1)
            + flatten_ops(o2.drop_last()) + o2.last());
    }
    assert(seq![o1].drop_last() =~= Seq::<Seq<Seq<DiffChange>>>::empty());
    assert(seq![op].drop_last() =~= Seq::<Seq<DiffChange>>::empty());
    assert(flatten_groups(seq![o1].drop_last()) =~= Seq::<DiffChange>::empty());
    assert(flatten_ops(seq![op].drop_last()) =~= Seq::<DiffChange>::empty());
    assert(flatten_groups(seq![o1]) =~= flatten_ops(o1));
    assert(flatten_ops(seq![op]) =~= op);
}

/// The mark that starts a shown line of a change with `tag`.
pub open spec fn diff_prefix(tag: u8) -> Seq<char> {
    if tag == 1 {
        "-"@
    } else if tag == 2 {
        "+"@
    } else {
        " "@
    }
}

/// `s` without the `'\n'`s that end it (`trim_end_matches('\n')`).
pub open spec fn without_trailing_newlines(s: Seq<char>) -> Seq<char>
    decreases s.len(),
{
    if s.len() > 0 && s.last() == '\n' {
        without_trailing_newlines(s.drop_last())
    } else {
        s
    }
}

/// How a change is shown: its tag, and its mark followed by its line.
pub open spec fn display_change(c: DiffChange) -> DiffChange {
    (c.0, diff_prefix(c.0) + without_trailing_newlines(c.1))
}

/// The line shown for a change with `tag` of `line`: `-`, `+` or a space,
/// then the line without its ending newlines.
pub fn diff_display_line(tag: u8, line: &str) -> (s: String)
    ensures
        s@ == diff_prefix(tag) + without_trailing_newlines(line@),
{
    let chars = chars_of(line);
    let mut end = chars.len();
    assert(chars@.take(end as int) =~= chars@);
    while end > 0 && chars[end - 1] == '\n'
        invariant
            end <= chars@.len(),
            without_trailing_newlines(chars@.take(end as int)) == without_trailing_newlines(line@),
            chars@ == line@,
        decreases end,
    {
        assert(chars@.take(end as int).drop_last() =~= chars@.take(end - 1));
        end = end - 1;
    }
    assert(without_trailing_newlines(chars@.take(end as int)) == chars@.take(end as int));
    let mut v: Vec<char> = Vec::new();
    if tag == 1 {
        push_str(&mut v, "-");
    } else if tag == 2 {
        push_str(&mut v, "+");
    } else {
        push_str(&mut v, " ");
    }
    let mut k: usize = 0;
    while k < end
        invariant
            k <= end <= chars@.len(),
            v@ == diff_prefix(tag) + chars@.take(k as int),
        decreases end - k,
    {
        v.push(chars[k]);
        k = k + 1;
        assert(v@ =~= diff_prefix(tag) + chars@.take(k as int));
    }
    string_from_chars(v.as_slice())
}

/// The lines shown before asking whether to overwrite `existing` with
/// `new_content`: each change of their line diff, grouped with 3 lines of
/// context, with its tag and its shown line, in order.
pub fn overwrite_diff(existing: &str, new_content: &str) -> (lines: Vec<(u8, String)>)
    ensures
        op_view(lines) == flatten_groups(line_diff_groups(existing@, new_content@, 3)).map_values(
            |c: DiffChange| display_change(c),
        ),
{
    let groups = grouped_line_diff(existing, new_content, 3);
    let ghost gv = groups_view(groups@);
    let mut lines: Vec<(u8, String)> = Vec::new();
    let mut g: usize = 0;
    while g < groups.len()
        invariant
            g <= groups@.len(),
            gv == groups_view(groups@),
            op_view(lines) == flatten_groups(gv.take(g as int)).map_values(
                |c: DiffChange| display_change(c),
            ),
        decreases groups@.len() - g,
    {
        let ghost before_group = op_view(lines);
        let group = &groups[g];
        let mut o: usize = 0;
        while o < group.len()
            invariant
                o <= group@.len(),
                op_view(lines) == before_group + flatten_ops(group_view(*group).take(o as int)).map_values(
                    |c: DiffChange| display_change(c),
                ),
            decreases group@.len() - o,
        {
            let ghost before_op = op_view(lines);
            let op = &group[o];
            let mut c: usize = 0;
            while c < op.len()
                invariant
                    c <= op@.len(),
                    op_view(lines) == before_op + op_view(*op).take(c as int).map_values(
                        |ch: DiffChange| display_change(ch),
                    ),
                decreases op@.len() - c,
            {
                let tag = op[c].0;
                let shown = diff_display_line(tag, op[c].1.as_str());
                let ghost item = op_view(*op)[c as int];
                assert(item == (tag, op@[c as int].1@));
                assert(op_view(*op).take(c + 1) =~= op_view(*op).take(c as int).push(item));
                let ghost before_push = op_view(lines);
                lines.push((tag, shown));
                assert(op_view(lines) =~= before_push.push((tag, shown@)));
                c = c + 1;
                assert(op_view(lines) =~= before_op + op_view(*op).take(c as int).map_values(
                    |ch: DiffChange| display_change(ch),
                ));
            }
            o = o + 1;
            assert(group_view(*group).take(o as int).drop_last() =~= group_view(*group).take(o - 1));
            assert(op_view(*op).take(op@.len() as int) =~= op_view(*op));
            assert(op_view(lines) =~= before_group + flatten_ops(group_view(*group).take(o as int)).map_values(
                |ch: DiffChange| display_change(ch),
            ));
        }
        g = g + 1;
        assert(gv.take(g as int).drop_last() =~= gv.take(g - 1));
        assert(group_view(*group).take(group@.len() as int) =~= group_view(*group));
        assert(op_view(lines) =~= flatten_groups(gv.take(g as int)).map_values(
            |ch: DiffChange| display_change(ch),
        ));
    }
    assert(gv.take(groups@.len() as int) =~= gv);
    lines
}

} // verus!
