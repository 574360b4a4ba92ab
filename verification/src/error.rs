//! The error kinds a pilot can surface, and the process exit convention.
use vstd::prelude::*;

use crate::command::{CommandError, Output, ProcessError};

verus! {

/// Errors a pilot surfaces to its caller.
#[derive(Debug)]
pub enum FlakeError {
    /// The pilot tried to run a sub command and failed.
    CommandError(CommandError),
    /// A filesystem or configuration read or write failed: what and where.
    IOError { kind: String, message: String },
    /// This flake is already running; an `@NAME` argument would give the
    /// new invocation an identity of its own.
    AlreadyRunning,
    /// Resume was configured together with an entrypoint-only target, so
    /// there is no known command to execute on resume.
    UnknownCommand,
    /// The transfer of host dependencies reported an incomplete sync.
    SyncFailed,
    /// An operational retry bound was exhausted.
    OperationError(OperationError),
}

/// Operational failures of the guest bridge.
#[derive(Debug)]
pub enum OperationError {
    /// The bounded handshake polling gave up.
    MaxTriesExceeded,
}

/// The low byte of a child's exit status, the value a pilot forwards.
pub open spec fn status_byte(code: i32) -> u8 {
    (code & 0xff) as u8
}

/// The exit code a pilot reports for an error.
///
/// A failed engine sub command forwards the engine's own exit code,
/// truncated to one byte; every other error is the generic failure `1`.
pub fn report_exit_code(e: &FlakeError) -> (r: u8)
    ensures
        r == report_exit_code_spec(e),
{
    match e {
        FlakeError::CommandError(
            CommandError { base: ProcessError::ExecutionError(Output { code: Some(c), .. }), .. },
        ) => {
            let b: i32 = *c & 0xff;
            proof {
                assert(0 <= c & 0xff < 256) by (bit_vector);
            }
            b as u8
        },
        _ => 1,
    }
}

/// What `report_exit_code` returns, as a function of the error value.
pub open spec fn report_exit_code_spec(e: &FlakeError) -> u8 {
    match e {
        FlakeError::CommandError(ce) => match ce.base {
            ProcessError::ExecutionError(o) => match o.code {
                Some(c) => status_byte(c),
                None => 1,
            },
            _ => 1,
        },
        _ => 1,
    }
}

} // verus!
