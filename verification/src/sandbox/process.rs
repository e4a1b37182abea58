//! What running a program came to.

use vstd::prelude::*;

use crate::sandbox::config::{ExecResultView, SandboxExecResult};
use crate::text;

verus! {

/// What became of a program that was run to its end.
pub enum CommandOutcome {
    /// It could not be run.
    NotRun,
    /// It ended.
    Exited { success: bool, stdout: Vec<u8>, stderr: Vec<u8> },
}

/// What became of a program that was given a limited time.
pub enum ExecOutcome {
    /// It could not be started.
    NotStarted,
    /// It ended. A program that was killed has no exit code.
    Exited { code: Option<i32>, stdout: Vec<u8>, stderr: Vec<u8> },
    /// Waiting for it failed, for this reason.
    Failed(String),
    /// It did not end in time.
    TimedOut,
}

/// What a program that ended left behind: its two outputs as text, and its exit code, or `-1`
/// where it has none.
pub open spec fn left_behind(
    code: Option<i32>,
    stdout: Seq<u8>,
    stderr: Seq<u8>,
) -> ExecResultView {
    ExecResultView {
        stdout: text::utf8_lossy(stdout),
        stderr: text::utf8_lossy(stderr),
        exit_code: match code {
            Some(code) => code,
            None => -1i32,
        },
    }
}

/// Collects what a program that ended left behind.
pub fn collect(code: Option<i32>, stdout: &Vec<u8>, stderr: &Vec<u8>) -> (result: SandboxExecResult)
    ensures
        result@ == left_behind(code, stdout@, stderr@),
{
    SandboxExecResult {
        stdout: text::decode_lossy(stdout.as_slice()),
        stderr: text::decode_lossy(stderr.as_slice()),
        exit_code: match code {
            Some(code) => code,
            None => -1,
        },
    }
}

/// A program that ended leaves its two outputs behind, each in its place, and its exit code, or
/// minus one where it was killed.
pub proof fn law_outputs_and_code_are_kept(code: i32, stdout: Seq<u8>, stderr: Seq<u8>)
    ensures
        left_behind(Some(code), stdout, stderr).exit_code == code,
        left_behind(None, stdout, stderr).exit_code == -1,
        forall|killed: Option<i32>|
            (#[trigger] left_behind(killed, stdout, stderr)).stdout == text::utf8_lossy(stdout)
                && left_behind(killed, stdout, stderr).stderr == text::utf8_lossy(stderr),
{
}

} // verus!
