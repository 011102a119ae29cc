//! Child-process status decoding: the decision rules a platform waiter
//! applies to what the OS reports about a child process.
//!
//! The OS calls themselves (querying an exit code, waiting on a handle)
//! are platform I/O and stay with the embedding; the embedding hands their
//! raw results in and these rules decide what they mean.

use vstd::prelude::*;

verus! {

/// The status code a process is reported with while it is still running.
pub const STILL_ACTIVE: u32 = 259;

/// The exit status of a terminated child process.
#[derive(Clone, Copy, Debug, PartialEq, Eq, Structural)]
pub struct ExitStatus {
    pub code: u32,
}

/// Decodes a non-blocking status poll: `call_ok` says whether the OS query
/// itself succeeded and `status` is the reported code.  A failed query or
/// a still-running child yields no exit status.
pub fn decode_try_wait(call_ok: bool, status: u32) -> (r: Option<ExitStatus>)
    ensures
        r == (if call_ok && status != STILL_ACTIVE {
            Some(ExitStatus { code: status })
        } else {
            None::<ExitStatus>
        }),
{
    if call_ok && status != STILL_ACTIVE {
        Some(ExitStatus { code: status })
    } else {
        None
    }
}

/// Decodes the status query made after a blocking wait returned: a
/// successful query yields the exit status as is (the child has ended, so
/// no code is reserved), a failed one is an error for the caller to raise.
pub fn decode_wait_result(call_ok: bool, status: u32) -> (r: Result<ExitStatus, ()>)
    ensures
        r == (if call_ok {
            Ok::<ExitStatus, ()>(ExitStatus { code: status })
        } else {
            Err::<ExitStatus, ()>(())
        }),
{
    if call_ok {
        Ok(ExitStatus { code: status })
    } else {
        Err(())
    }
}

} // verus!
