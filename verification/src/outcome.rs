//! Classification of one supervised run and derivation of its artifacts.
//!
//! The surrounding tool layer spawns the workload, drains its output streams,
//! and waits on it with a time limit. Everything it observes is handed to
//! this module as plain values; the functions here decide, for every possible
//! observation, which outcome the run had and which bytes each artifact file
//! must hold.

use vstd::prelude::*;
use vstd::string::StrSliceExecFns;
use vstd::string::StringSliceAdditionalSpecFns;

use crate::bytes::dec_nat;
use crate::bytes::push_all;
use crate::bytes::u64_to_dec;

verus! {

/// What the timed wait on the child process reported.
#[derive(Debug, Clone, PartialEq, Eq)]
pub enum WaitResult {
    /// The process exited within the time limit. `code` is its exit code,
    /// `None` when the platform could not report one.
    Exited { code: Option<i64> },
    /// The time limit elapsed first and the process was forcibly terminated.
    DeadlineExpired,
    /// Waiting itself failed for a reason other than the time limit.
    Error { message: Vec<u8> },
}

/// The classified result of one supervised run.
#[derive(Debug, Clone, PartialEq, Eq)]
pub enum RunOutcome {
    /// The process ran to completion. `code` is its exit code, `None` when
    /// the platform could not report one.
    Completed { code: Option<i64> },
    /// The process exceeded its time limit and was forcibly terminated.
    TimedOut,
    /// The process could not be created.
    SpawnFailed { message: Vec<u8> },
    /// The process was created but its completion could not be observed.
    WaitFailed { message: Vec<u8> },
}

/// Classifies the report of the timed wait. A nonzero exit, a timeout and a
/// wait error are all ordinary outcomes, never a failure of the supervisor.
pub fn classify_wait(w: WaitResult) -> (o: RunOutcome)
    ensures
        o == classify_wait_spec(w),
{
    match w {
        WaitResult::Exited { code } => RunOutcome::Completed { code },
        WaitResult::DeadlineExpired => RunOutcome::TimedOut,
        WaitResult::Error { message } => RunOutcome::WaitFailed { message },
    }
}

/// The outcome that belongs to each wait report.
pub open spec fn classify_wait_spec(w: WaitResult) -> RunOutcome {
    match w {
        WaitResult::Exited { code } => RunOutcome::Completed { code },
        WaitResult::DeadlineExpired => RunOutcome::TimedOut,
        WaitResult::Error { message } => RunOutcome::WaitFailed { message },
    }
}

/// Decimal rendering of an exit code, with a leading minus sign when the
/// code is negative.
pub open spec fn dec_i64(c: i64) -> Seq<u8> {
    if c >= 0 {
        dec_nat(c as nat)
    } else {
        seq![45u8] + dec_nat((-(c as int)) as nat)
    }
}

/// The bytes of the status artifact: the decimal exit code for a completed
/// run, `-1 timed out` for a timeout, and the sentinel `-2` when no exit
/// code exists (spawn failure, wait failure, or a platform that reported
/// none).
pub open spec fn exit_code_bytes(o: RunOutcome) -> Seq<u8> {
    match o {
        RunOutcome::Completed { code } => match code {
            Some(c) => dec_i64(c),
            None => "-2".spec_bytes(),
        },
        RunOutcome::TimedOut => "-1 timed out".spec_bytes(),
        RunOutcome::SpawnFailed { .. } => "-2".spec_bytes(),
        RunOutcome::WaitFailed { .. } => "-2".spec_bytes(),
    }
}

/// Renders the status artifact for an outcome.
pub fn exit_code_text(o: &RunOutcome) -> (t: Vec<u8>)
    ensures
        t@ == exit_code_bytes(*o),
{
    match o {
        RunOutcome::Completed { code: Some(c) } => {
            if *c >= 0 {
                u64_to_dec(*c as u64)
            } else {
                let mag: u64 = ((-(*c + 1)) as u64) + 1;
                let mut t: Vec<u8> = Vec::new();
                t.push(45);
                let digits = u64_to_dec(mag);
                push_all(&mut t, digits.as_slice());
                proof {
                    assert(mag == -(*c as int));
                    assert(t@ =~= dec_i64(*c));
                }
                t
            }
        },
        RunOutcome::Completed { code: None } => "-2".as_bytes_vec(),
        RunOutcome::TimedOut => "-1 timed out".as_bytes_vec(),
        RunOutcome::SpawnFailed { .. } => "-2".as_bytes_vec(),
        RunOutcome::WaitFailed { .. } => "-2".as_bytes_vec(),
    }
}

/// The three artifact files of one run, as the bytes each must hold.
#[derive(Debug, Clone, PartialEq, Eq)]
pub struct RunArtifacts {
    /// Bytes for `stdout.txt`.
    pub stdout: Vec<u8>,
    /// Bytes for `stderr.txt`.
    pub stderr: Vec<u8>,
    /// Bytes for `exit_code.txt`.
    pub exit_code: Vec<u8>,
}

/// Bytes of the captured-error artifact when an infrastructure message is
/// recorded instead of stream output.
pub open spec fn error_note(message: Seq<u8>) -> Seq<u8> {
    "error: ".spec_bytes() + message
}

/// The stdout artifact owed to an outcome: the drained stdout buffer,
/// except that a run whose process never existed has nothing to report.
pub open spec fn stdout_artifact(o: RunOutcome, stdout_buf: Seq<u8>) -> Seq<u8> {
    match o {
        RunOutcome::SpawnFailed { .. } => Seq::<u8>::empty(),
        _ => stdout_buf,
    }
}

/// The stderr artifact owed to an outcome: the drained stderr buffer for a
/// completed or timed-out run, and the explanatory note for a spawn or wait
/// failure.
pub open spec fn stderr_artifact(o: RunOutcome, stderr_buf: Seq<u8>) -> Seq<u8> {
    match o {
        RunOutcome::SpawnFailed { message } => error_note(message@),
        RunOutcome::WaitFailed { message } => error_note(message@),
        _ => stderr_buf,
    }
}

/// Derives the three artifacts of one run from its outcome and the two
/// drained stream buffers. Every outcome yields all three artifacts; they
/// degrade gracefully rather than being omitted.
pub fn artifacts_for(o: &RunOutcome, stdout_buf: Vec<u8>, stderr_buf: Vec<u8>) -> (a: RunArtifacts)
    ensures
        a.stdout@ == stdout_artifact(*o, stdout_buf@),
        a.stderr@ == stderr_artifact(*o, stderr_buf@),
        a.exit_code@ == exit_code_bytes(*o),
{
    let exit_code = exit_code_text(o);
    match o {
        RunOutcome::SpawnFailed { message } => {
            let mut note = "error: ".as_bytes_vec();
            push_all(&mut note, message.as_slice());
            RunArtifacts { stdout: Vec::new(), stderr: note, exit_code }
        },
        RunOutcome::WaitFailed { message } => {
            let mut note = "error: ".as_bytes_vec();
            push_all(&mut note, message.as_slice());
            RunArtifacts { stdout: stdout_buf, stderr: note, exit_code }
        },
        _ => RunArtifacts { stdout: stdout_buf, stderr: stderr_buf, exit_code },
    }
}

} // verus!
