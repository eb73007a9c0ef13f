//! What running the command on one commit came to.

use vstd::prelude::*;
use vstd::string::*;
use vstd::utf8::*;

use crate::commit::CommitId;

verus! {

/// The three ways a commit's unit of work can end.
#[derive(Clone, Copy, Debug, PartialEq, Eq, Structural, Hash)]
pub enum Status {
    /// The command ran and exited with code zero.
    Success,
    /// The command ran and exited with another code, or was ended by a signal.
    Failure,
    /// No verdict on the commit: its workspace could not be provisioned, the
    /// command could not be spawned, or its output is not text.
    ProvisionError,
}

/// How a spawned command ended, as the operating system reports it.
#[derive(Clone, Copy, Debug, PartialEq, Eq)]
pub struct ProcessExit {
    /// The exit code, where the command exited by itself.
    pub code: Option<i32>,
    /// The signal that ended the command, where one did and its number is
    /// known.
    pub signal: Option<i32>,
}

/// The code recorded when a command did not run, or when neither an exit
/// code nor a signal number is known.
pub const UNKNOWN_EXIT: i32 = 1;

/// The code recorded for `exit`: the exit code itself; for a command ended by
/// signal `s`, `128 + s`; and `UNKNOWN_EXIT` where neither is known.
pub open spec fn exit_code_of(exit: ProcessExit) -> int {
    match exit.code {
        Some(code) => code as int,
        None => match exit.signal {
            Some(signal) => if 0 < signal && 128 + signal <= i32::MAX {
                128 + signal
            } else {
                UNKNOWN_EXIT as int
            },
            None => UNKNOWN_EXIT as int,
        },
    }
}

/// Whether `exit` is a command that exited with code zero.
pub open spec fn exited_cleanly(exit: ProcessExit) -> bool {
    exit.code == Some(0i32)
}

/// The status of a command that ended as `exit`. The stream that is read as
/// text is standard output after a clean exit and standard error otherwise;
/// bytes that are not UTF-8 there leave the commit without a verdict.
pub open spec fn status_of_exit(exit: ProcessExit, stdout: Seq<u8>, stderr: Seq<u8>) -> Status {
    if exited_cleanly(exit) {
        if valid_utf8(stdout) {
            Status::Success
        } else {
            Status::ProvisionError
        }
    } else {
        if valid_utf8(stderr) {
            Status::Failure
        } else {
            Status::ProvisionError
        }
    }
}

/// The mathematical value of an [`ExecutionOutcome`].
pub struct OutcomeView {
    pub commit: Seq<u8>,
    pub exit_code: int,
    pub stdout: Seq<u8>,
    pub stderr: Seq<u8>,
    pub status: Status,
}

/// The outcome of a command that was spawned for `commit` and ended as
/// `exit`.
pub open spec fn outcome_of_exit(
    commit: Seq<u8>,
    exit: ProcessExit,
    stdout: Seq<u8>,
    stderr: Seq<u8>,
) -> OutcomeView {
    OutcomeView {
        commit,
        exit_code: exit_code_of(exit),
        stdout,
        stderr,
        status: status_of_exit(exit, stdout, stderr),
    }
}

/// The outcome of a unit of work that never got to run its command.
pub open spec fn outcome_of_error(commit: Seq<u8>, diagnostics: Seq<u8>) -> OutcomeView {
    OutcomeView {
        commit,
        exit_code: UNKNOWN_EXIT as int,
        stdout: Seq::empty(),
        stderr: diagnostics,
        status: Status::ProvisionError,
    }
}

/// The result of one commit's unit of work.
#[derive(Debug)]
pub struct ExecutionOutcome {
    commit: CommitId,
    exit_code: i32,
    stdout: Vec<u8>,
    stderr: Vec<u8>,
    status: Status,
}

impl View for ExecutionOutcome {
    type V = OutcomeView;

    closed spec fn view(&self) -> OutcomeView {
        OutcomeView {
            commit: self.commit@,
            exit_code: self.exit_code as int,
            stdout: self.stdout@,
            stderr: self.stderr@,
            status: self.status,
        }
    }
}

/// `std::str::from_utf8`: the text that `bytes` encode. It succeeds exactly
/// on well-formed UTF-8, and the text it gives is made of the same bytes.
#[verifier::external_body]
pub(crate) fn text_of(bytes: &[u8]) -> (text: Option<&str>)
    ensures
        text is Some <==> valid_utf8(bytes@),
        text matches Some(s) ==> s.spec_bytes() == bytes@,
{
    match std::str::from_utf8(bytes) {
        Ok(s) => Some(s),
        Err(_) => None,
    }
}

/// The code recorded for `exit`.
pub fn exit_code(exit: ProcessExit) -> (code: i32)
    ensures
        code == exit_code_of(exit),
{
    match exit.code {
        Some(code) => code,
        None => match exit.signal {
            Some(signal) => if 0 < signal && signal <= i32::MAX - 128 {
                128 + signal
            } else {
                UNKNOWN_EXIT
            },
            None => UNKNOWN_EXIT,
        },
    }
}

impl ExecutionOutcome {
    /// The outcome of a command that was spawned for `commit` and ended as
    /// `exit`, having written `stdout` and `stderr`.
    pub fn from_exit(commit: CommitId, exit: ProcessExit, stdout: Vec<u8>, stderr: Vec<u8>) -> (outcome:
        ExecutionOutcome)
        ensures
            outcome@ == outcome_of_exit(commit@, exit, stdout@, stderr@),
    {
        let clean = match exit.code {
            Some(code) => code == 0,
            None => false,
        };
        let status = if clean {
            match text_of(stdout.as_slice()) {
                Some(_) => Status::Success,
                None => Status::ProvisionError,
            }
        } else {
            match text_of(stderr.as_slice()) {
                Some(_) => Status::Failure,
                None => Status::ProvisionError,
            }
        };
        ExecutionOutcome { commit, exit_code: exit_code(exit), stdout, stderr, status }
    }

    /// The outcome of a unit of work that never got to run its command:
    /// provisioning failed, or the command could not be spawned.
    /// `diagnostics` says why, and is kept as the outcome's standard error.
    pub fn errored(commit: CommitId, diagnostics: Vec<u8>) -> (outcome: ExecutionOutcome)
        ensures
            outcome@ == outcome_of_error(commit@, diagnostics@),
    {
        ExecutionOutcome {
            commit,
            exit_code: UNKNOWN_EXIT,
            stdout: Vec::new(),
            stderr: diagnostics,
            status: Status::ProvisionError,
        }
    }

    /// The commit that the command ran on.
    pub fn commit(&self) -> (commit: CommitId)
        ensures
            commit@ == self@.commit,
    {
        self.commit
    }

    /// The recorded exit code.
    pub fn exit_code(&self) -> (code: i32)
        ensures
            code == self@.exit_code,
    {
        self.exit_code
    }

    /// What the command wrote to standard output.
    pub fn stdout(&self) -> (bytes: &Vec<u8>)
        ensures
            bytes@ == self@.stdout,
    {
        &self.stdout
    }

    /// What the command wrote to standard error, or the diagnostics of a unit
    /// that never ran.
    pub fn stderr(&self) -> (bytes: &Vec<u8>)
        ensures
            bytes@ == self@.stderr,
    {
        &self.stderr
    }

    /// How the unit of work ended.
    pub fn status(&self) -> (status: Status)
        ensures
            status == self@.status,
    {
        self.status
    }
}

} // verus!
