//! The worker: runs exactly one command spec against one input, end to end,
//! and produces exactly one result. The blocking process work itself (spawn,
//! stdin write, wait) happens outside this library; what stands here is every
//! decision and every byte of the result text: which step comes next, and the
//! exact text produced for each possible outcome of the process.

use crate::command::CommandSpec;
use crate::text::{is_wspace, lemma_tokens_empty_iff_all_wspace, trim_end, trimmed_end};
use vstd::prelude::*;
use vstd::string::StringExecFns;

verus! {

/// One result of one worker invocation: the raw configured command string it
/// answers for, and either the command's trimmed output or a formatted
/// failure description.
pub struct CommandUpdate {
    pub name: String,
    pub text: String,
}

/// What happened to the external process of one runnable spec, as plain
/// values: each variant is terminal and yields exactly one result.
pub enum ProcessOutcome {
    /// The process could not be spawned (not found, not executable, ...).
    SpawnFailed { cause: String },
    /// The input could not be written to the process's standard input.
    StdinWriteFailed { cause: String },
    /// The process was spawned but its exit and output could not be collected.
    WaitFailed { cause: String },
    /// The process ran to completion with the given exit status and captured
    /// standard output and standard error bytes.
    Exited { success: bool, status: String, stdout: Vec<u8>, stderr: Vec<u8> },
}

/// The characters that `bytes` decode to as UTF-8, invalid sequences replaced,
/// never a hard failure. Named, not spelled out: the replacement rules belong
/// to the decoder.
pub uninterp spec fn lossy_decode(bytes: Seq<u8>) -> Seq<char>;

/// All bytes are plain ASCII.
pub open spec fn all_ascii(b: Seq<u8>) -> bool {
    forall|i: int| 0 <= i < b.len() ==> b[i] < 0x80
}

/// The characters that a sequence of ASCII bytes stands for.
pub open spec fn ascii_chars(b: Seq<u8>) -> Seq<char> {
    b.map(|i: int, x: u8| x as char)
}

/// Relies on String::from_utf8_lossy: the decoding depends on the bytes
/// alone; ASCII bytes, being valid UTF-8, decode to their own characters,
/// and empty input stays empty.
#[verifier::external_body]
fn decode_lossy(bytes: &[u8]) -> (r: String)
    ensures
        r@ == lossy_decode(bytes@),
        bytes@.len() == 0 ==> r@.len() == 0,
        all_ascii(bytes@) ==> r@ == ascii_chars(bytes@),
{
    String::from_utf8_lossy(bytes).into_owned()
}

/// The result text owed to a spec that tokenized to nothing.
pub open spec fn empty_command_text() -> Seq<char> {
    "Error: Empty command"@
}

/// The result text owed when spawning the process failed.
pub open spec fn spawn_failure_text(raw: Seq<char>, cause: Seq<char>) -> Seq<char> {
    "Failed to execute '"@ + raw + "': "@ + cause
}

/// The result text owed when writing the input to the process failed.
pub open spec fn stdin_failure_text(cause: Seq<char>) -> Seq<char> {
    "Error writing to stdin: "@ + cause
}

/// The result text owed when collecting the process's output failed.
pub open spec fn wait_failure_text(cause: Seq<char>) -> Seq<char> {
    "Failed to get command output: "@ + cause
}

/// The result text owed when the process exited with a failure status:
/// the status, then the trimmed standard error — never the standard output.
pub open spec fn exit_failure_text(status: Seq<char>, stderr: Seq<u8>) -> Seq<char> {
    "Failed ("@ + status + "):\n"@ + trimmed_end(lossy_decode(stderr))
}

/// The result text owed when the process exited successfully: its standard
/// output decoded permissively and trimmed of trailing whitespace.
pub open spec fn exit_success_text(stdout: Seq<u8>) -> Seq<char> {
    trimmed_end(lossy_decode(stdout))
}

/// The one result text owed for each possible outcome of a runnable spec.
pub open spec fn outcome_text(raw: Seq<char>, o: ProcessOutcome) -> Seq<char> {
    match o {
        ProcessOutcome::SpawnFailed { cause } => spawn_failure_text(raw, cause@),
        ProcessOutcome::StdinWriteFailed { cause } => stdin_failure_text(cause@),
        ProcessOutcome::WaitFailed { cause } => wait_failure_text(cause@),
        ProcessOutcome::Exited { success, status, stdout, stderr } => if success {
            exit_success_text(stdout@)
        } else {
            exit_failure_text(status@, stderr@)
        },
    }
}

/// The first worker step: a spec that tokenized to nothing short-circuits to
/// its error result and nothing may be spawned; any other spec proceeds to
/// the process.
pub enum WorkerStep {
    /// Terminal: deliver this result; no process is spawned.
    Finished(CommandUpdate),
    /// Spawn the spec's program with its args, pipe all three standard
    /// streams, write the input, and collect the outcome.
    RunProcess,
}

/// Decides the first worker step for a spec.
pub fn plan(spec: &CommandSpec) -> (step: WorkerStep)
    requires
        spec.wf(),
    ensures
        spec.is_runnable() ==> step is RunProcess,
        !spec.is_runnable() ==> (step matches WorkerStep::Finished(r) && r.name@ == spec.raw@
            && r.text@ == empty_command_text()),
{
    if spec.runnable() {
        WorkerStep::RunProcess
    } else {
        WorkerStep::Finished(
            CommandUpdate { name: spec.raw.clone(), text: "Error: Empty command".to_owned() },
        )
    }
}

/// Builds the one result a runnable spec's worker owes for the outcome of
/// its process. The result's name is always the spec's raw string, and the
/// text is exactly the outcome's owed text: trimmed output on success, a
/// failure description otherwise.
pub fn outcome_result(spec: &CommandSpec, outcome: ProcessOutcome) -> (r: CommandUpdate)
    ensures
        r.name@ == spec.raw@,
        r.text@ == outcome_text(spec.raw@, outcome),
{
    let text = match outcome {
        ProcessOutcome::SpawnFailed { cause } => {
            let mut t = "Failed to execute '".to_owned();
            t.append(spec.raw.as_str());
            t.append("': ");
            t.append(cause.as_str());
            proof {
                assert(t@ =~= spawn_failure_text(spec.raw@, cause@));
            }
            t
        },
        ProcessOutcome::StdinWriteFailed { cause } => {
            let mut t = "Error writing to stdin: ".to_owned();
            t.append(cause.as_str());
            t
        },
        ProcessOutcome::WaitFailed { cause } => {
            let mut t = "Failed to get command output: ".to_owned();
            t.append(cause.as_str());
            t
        },
        ProcessOutcome::Exited { success, status, stdout, stderr } => {
            if success {
                let decoded = decode_lossy(stdout.as_slice());
                trim_end(decoded.as_str())
            } else {
                let decoded = decode_lossy(stderr.as_slice());
                let trimmed = trim_end(decoded.as_str());
                let mut t = "Failed (".to_owned();
                t.append(status.as_str());
                t.append("):\n");
                t.append(trimmed.as_str());
                proof {
                    assert(t@ =~= exit_failure_text(status@, stderr@));
                }
                t
            }
        },
    };
    CommandUpdate { name: spec.raw.clone(), text }
}

/// The one result text a worker owes for a spec, whatever came of its
/// process: the empty-spec error without any process, the outcome's owed
/// text otherwise. This is the worker's whole observable behaviour.
pub open spec fn worker_text(spec: CommandSpec, o: ProcessOutcome) -> Seq<char> {
    if spec.is_runnable() {
        outcome_text(spec.raw@, o)
    } else {
        empty_command_text()
    }
}

/// A raw spec of whitespace alone is not runnable, so its worker's one owed
/// text is exactly the empty-command error, whatever any process outcome
/// would have said — and [`plan`] answers it with a terminal step, so no
/// process is ever spawned for it.
pub proof fn lemma_whitespace_only_spec(spec: CommandSpec, o: ProcessOutcome)
    requires
        spec.wf(),
        forall|i: int| 0 <= i < spec.raw@.len() ==> is_wspace(spec.raw@[i]),
    ensures
        !spec.is_runnable(),
        worker_text(spec, o) == empty_command_text(),
{
    lemma_tokens_empty_iff_all_wspace(spec.raw@);
}

} // verus!
