//! Running the `gh` CLI: its raw output, the runner abstraction, and the
//! library's error type.
use vstd::prelude::*;
use vstd::utf8::*;

use crate::text::{chars_of, push_signed_decimal, push_str, signed_decimal, string_from_chars, trim, trimmed};

verus! {

// ---------------------------------------------------------------------------
// Errors
// ---------------------------------------------------------------------------

/// An error with a message and, when it wraps another error, the text of that
/// error (the chain of causes, outermost first).
#[derive(Debug, Clone)]
pub struct CliError {
    /// What failed, as shown to the user.
    pub message: String,
    /// The underlying error's own text; empty when there is none.
    pub cause: String,
}

impl CliError {
    /// The whole chain: the message, then `": "` and the cause when there is one.
    pub open spec fn chain(&self) -> Seq<char> {
        if self.cause@.len() == 0 {
            self.message@
        } else {
            self.message@ + ": "@ + self.cause@
        }
    }

    /// An error with `message` and no cause.
    pub fn new(message: &str) -> (e: CliError)
        ensures
            e.message@ == message@,
            e.cause@.len() == 0,
    {
        CliError { message: message.to_owned(), cause: String::new() }
    }

    /// Wraps this error under the message `ctx`.
    pub fn context(self, ctx: &str) -> (e: CliError)
        ensures
            e.message@ == ctx@,
            e.cause@ == self.chain(),
    {
        let cause = self.full_message();
        CliError { message: ctx.to_owned(), cause }
    }

    /// The message, as the error is displayed.
    pub fn to_string(&self) -> (s: String)
        ensures
            s@ == self.message@,
    {
        self.message.clone()
    }

    /// The message followed by its chain of causes.
    pub fn full_message(&self) -> (s: String)
        ensures
            s@ == self.chain(),
    {
        if self.cause.as_str().is_empty() {
            self.message.clone()
        } else {
            let mut v = chars_of(self.message.as_str());
            push_str(&mut v, ": ");
            push_str(&mut v, self.cause.as_str());
            string_from_chars(v.as_slice())
        }
    }
}

/// A fallible text result seen as plain values: the text, or the error's
/// message and cause.
pub open spec fn text_view(r: Result<String, CliError>) -> Result<Seq<char>, (Seq<char>, Seq<char>)> {
    match r {
        Ok(s) => Ok(s@),
        Err(e) => Err((e.message@, e.cause@)),
    }
}

/// A fallible unit result seen as plain values.
pub open spec fn unit_view(r: Result<(), CliError>) -> Result<(), (Seq<char>, Seq<char>)> {
    match r {
        Ok(_) => Ok(()),
        Err(e) => Err((e.message@, e.cause@)),
    }
}

// ---------------------------------------------------------------------------
// Raw output
// ---------------------------------------------------------------------------

/// Raw output from a `gh` CLI invocation.
#[derive(Debug, Clone)]
pub struct GhOutput {
    /// Exit code returned by the process (`None` if the process was killed by signal).
    pub exit_code: Option<i32>,
    /// Bytes written to stdout.
    pub stdout: Vec<u8>,
    /// Bytes written to stderr.
    pub stderr: Vec<u8>,
}

/// The process exited with code 0.
pub open spec fn exited_ok(out: GhOutput) -> bool {
    out.exit_code == Some(0i32)
}

impl GhOutput {
    /// Returns `true` when the process exited with code 0.
    pub fn success(&self) -> (r: bool)
        ensures
            r == exited_ok(*self),
    {
        match self.exit_code {
            Some(c) => c == 0,
            None => false,
        }
    }
}

// ---------------------------------------------------------------------------
// Lossy decoding
// ---------------------------------------------------------------------------

/// What `String::from_utf8_lossy` makes of `bytes`.
pub uninterp spec fn utf8_lossy(bytes: Seq<u8>) -> Seq<char>;

/// Decodes `bytes` as UTF-8, replacing invalid sequences with U+FFFD.
///
/// Trusted: calls std's `String::from_utf8_lossy`. Its result is named
/// [`utf8_lossy`]; the one fact stated of it is std's documented one, that
/// valid UTF-8 is decoded as is. What it makes of invalid sequences is left unsaid.
#[verifier::external_body]
pub(crate) fn decode_lossy(bytes: &[u8]) -> (s: String)
    ensures
        s@ == utf8_lossy(bytes@),
        valid_utf8(bytes@) ==> s@ == decode_utf8(bytes@),
{
    String::from_utf8_lossy(bytes).into_owned()
}

/// The decoded, trimmed text of `bytes`.
pub fn lossy_trimmed(bytes: &[u8]) -> (s: String)
    ensures
        s@ == trim(utf8_lossy(bytes@)),
        valid_utf8(bytes@) ==> s@ == trim(decode_utf8(bytes@)),
{
    let text = decode_lossy(bytes);
    trimmed(text.as_str())
}

// ---------------------------------------------------------------------------
// The runner
// ---------------------------------------------------------------------------

/// The arguments of a call, as character sequences.
pub open spec fn arg_views(args: Seq<&str>) -> Seq<Seq<char>> {
    args.map_values(|a: &str| a@)
}

/// The bytes handed to a call's stdin, if any.
pub open spec fn stdin_view(stdin: Option<&[u8]>) -> Option<Seq<u8>> {
    match stdin {
        Some(b) => Some(b@),
        None => None,
    }
}

/// One call made through a runner: its arguments, what it was fed on stdin,
/// and what it gave back.
pub type GhCall = (Seq<Seq<char>>, Option<Seq<u8>>, Result<GhOutput, CliError>);

/// A step's text answer as plain values: the text, or the error's message and cause.
pub type TextAnswer = Result<Seq<char>, (Seq<char>, Seq<char>)>;

/// A step's answer when it yields nothing, as plain values.
pub type UnitAnswer = Result<(), (Seq<char>, Seq<char>)>;

/// Abstracts spawning the `gh` CLI, so that callers can inject their own runner.
///
/// Every `gh` invocation routes through this trait. A run may give any
/// outcome; the runner's log of calls lets callers' contracts say exactly
/// which calls they made, with what, and what they made of each answer.
pub trait GhRunner {
    /// Every call made through this runner so far, oldest first.
    ///
    /// A runner whose contract is to be checked defines its own log; the
    /// empty default is what a runner that records nothing reports, and
    /// proofs about a generic runner never read it.
    open spec fn calls(&self) -> Seq<GhCall> {
        Seq::empty()
    }

    /// Run `gh <args>` and return the raw output.
    ///
    /// If `stdin` is `Some(bytes)`, the bytes are written to the process's
    /// stdin before waiting for it to finish. A non-zero exit code is not an
    /// error at this level; an `Err` means the process could not be run.
    fn run(&mut self, args: &[&str], stdin: Option<&[u8]>) -> (result: Result<GhOutput, CliError>)
        ensures
            final(self).calls() == old(self).calls().push(
                (arg_views(args@), stdin_view(stdin), result),
            ),
    ;
}

/// `after` is `before` with calls appended: the earlier calls stay as they were.
pub open spec fn keeps_log(before: Seq<GhCall>, after: Seq<GhCall>) -> bool {
    before.len() <= after.len() && forall|i: int| 0 <= i < before.len() ==> #[trigger] after[i] == before[i]
}

/// The log holds, at position `at`, a call with `args` fed `stdin`.
pub open spec fn call_at(log: Seq<GhCall>, at: int, args: Seq<Seq<char>>, stdin: Option<Seq<u8>>) -> bool {
    0 <= at < log.len() && log[at].0 == args && log[at].1 == stdin
}

/// What a step `step` that makes the one call `args` fed `stdin` and reads the
/// value it prints answered, read from the log at `at`, with the position
/// after its call; `None` when the log does not hold that call there.
pub open spec fn text_step(
    log: Seq<GhCall>,
    at: int,
    args: Seq<Seq<char>>,
    stdin: Option<Seq<u8>>,
    step: Seq<char>,
) -> Option<(TextAnswer, int)> {
    if call_at(log, at, args, stdin) {
        Some((stdout_text_outcome(log[at].2, step), at + 1))
    } else {
        None
    }
}

/// Like [`text_step`], for a step that yields nothing.
pub open spec fn unit_step(
    log: Seq<GhCall>,
    at: int,
    args: Seq<Seq<char>>,
    stdin: Option<Seq<u8>>,
    step: Seq<char>,
) -> Option<(UnitAnswer, int)> {
    if call_at(log, at, args, stdin) {
        Some((unit_outcome(log[at].2, step), at + 1))
    } else {
        None
    }
}

// ---------------------------------------------------------------------------
// Interpreting outputs
// ---------------------------------------------------------------------------

/// How `{:?}` prints an exit code.
pub open spec fn exit_code_debug(code: Option<i32>) -> Seq<char> {
    match code {
        Some(c) => "Some("@ + signed_decimal(c as int) + ")"@,
        None => "None"@,
    }
}

/// The message of a failed step `step` that gave `out`.
pub open spec fn failure_message(out: GhOutput, step: Seq<char>) -> Seq<char> {
    step + " failed (exit "@ + exit_code_debug(out.exit_code) + "): "@ + utf8_lossy(out.stderr@)
        + utf8_lossy(out.stdout@)
}

/// Message of the error that wraps a runner that could not run.
pub open spec fn spawn_failure() -> Seq<char> {
    "failed to spawn `gh`"@
}

/// Return an error when `output` is not successful.
pub fn require_success(output: &GhOutput, context: &str) -> (r: Result<(), CliError>)
    ensures
        r is Ok <==> exited_ok(*output),
        r matches Err(e) ==> e.message@ == failure_message(*output, context@) && e.cause@.len()
            == 0,
{
    if output.success() {
        return Ok(());
    }
    let stderr = decode_lossy(output.stderr.as_slice());
    let stdout = decode_lossy(output.stdout.as_slice());
    let mut v = chars_of(context);
    push_str(&mut v, " failed (exit ");
    match output.exit_code {
        Some(c) => {
            push_str(&mut v, "Some(");
            push_signed_decimal(c, &mut v);
            push_str(&mut v, ")");
        },
        None => {
            push_str(&mut v, "None");
        },
    }
    push_str(&mut v, "): ");
    push_str(&mut v, stderr.as_str());
    push_str(&mut v, stdout.as_str());
    let message = string_from_chars(v.as_slice());
    assert(message@ =~= failure_message(*output, context@));
    Err(CliError { message, cause: String::new() })
}

/// What a step `step` that prints one value makes of the run's outcome `res`:
/// the trimmed stdout when the run succeeded, else the matching error.
pub open spec fn stdout_text_outcome(res: Result<GhOutput, CliError>, step: Seq<char>) -> Result<
    Seq<char>,
    (Seq<char>, Seq<char>),
> {
    match res {
        Err(e) => Err((spawn_failure(), e.chain())),
        Ok(out) => if exited_ok(out) {
            Ok(trim(utf8_lossy(out.stdout@)))
        } else {
            Err((failure_message(out, step), Seq::<char>::empty()))
        },
    }
}

/// Interprets the outcome of a step that prints one value.
pub fn stdout_text(res: Result<GhOutput, CliError>, step: &str) -> (r: Result<String, CliError>)
    ensures
        text_view(r) == stdout_text_outcome(res, step@),
        res is Ok && exited_ok(res->Ok_0) && valid_utf8(res->Ok_0.stdout@) ==> r is Ok && r->Ok_0@
            == trim(decode_utf8(res->Ok_0.stdout@)),
{
    match res {
        Err(e) => Err(e.context("failed to spawn `gh`")),
        Ok(out) => {
            match require_success(&out, step) {
                Err(e) => {
                    assert(e.cause@ =~= Seq::<char>::empty());
                    Err(e)
                },
                Ok(()) => Ok(lossy_trimmed(out.stdout.as_slice())),
            }
        },
    }
}

/// What a step `step` that prints nothing makes of the run's outcome `res`.
pub open spec fn unit_outcome(res: Result<GhOutput, CliError>, step: Seq<char>) -> Result<
    (),
    (Seq<char>, Seq<char>),
> {
    match res {
        Err(e) => Err((spawn_failure(), e.chain())),
        Ok(out) => if exited_ok(out) {
            Ok(())
        } else {
            Err((failure_message(out, step), Seq::<char>::empty()))
        },
    }
}

/// Interprets the outcome of a step that prints nothing.
pub fn unit_result(res: Result<GhOutput, CliError>, step: &str) -> (r: Result<(), CliError>)
    ensures
        unit_view(r) == unit_outcome(res, step@),
{
    match res {
        Err(e) => Err(e.context("failed to spawn `gh`")),
        Ok(out) => {
            let r = require_success(&out, step);
            if let Err(e) = &r {
                assert(e.cause@ =~= Seq::<char>::empty());
            }
            r
        },
    }
}

} // verus!
