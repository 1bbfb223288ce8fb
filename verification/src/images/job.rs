//! What the end of a systemd-sysupdated job means for the operation that
//! waited on it.
use crate::common::fmt::{dec, push_dec};
use crate::error::MizError;
use crate::text::{push_str, to_owned};
use vstd::prelude::*;

verus! {

/// The failure a job's exit status reports: none for 0, the status itself
/// when positive, the system's text for the negated error number (given as
/// `os_error`) when negative.
pub open spec fn job_failure(id: u64, status: i32, os_error: Seq<char>) -> Option<Seq<char>> {
    if status == 0 {
        None
    } else if status > 0 {
        Some("update job "@ + dec(id as nat) + " failed (exit status "@ + dec(status as nat) + ")"@)
    } else {
        Some("update job "@ + dec(id as nat) + " failed: "@ + os_error)
    }
}

/// The outcome of job `id` that ended with `status`; `os_error` is the
/// system's description of error number `-status`.
pub fn job_outcome(id: u64, status: i32, os_error: &str) -> (r: Result<(), MizError>)
    ensures
        match job_failure(id, status, os_error@) {
            None => r is Ok,
            Some(m) => r matches Err(MizError::Sysupdate(x)) && x@ == m,
        },
{
    if status == 0 {
        return Ok(());
    }
    let mut m = to_owned("update job ");
    push_dec(&mut m, id);
    if status > 0 {
        push_str(&mut m, " failed (exit status ");
        push_dec(&mut m, status as u64);
        push_str(&mut m, ")");
    } else {
        push_str(&mut m, " failed: ");
        push_str(&mut m, os_error);
    }
    Err(MizError::Sysupdate(m))
}

/// The error when the signal stream ends before job `id` is reported done:
/// the outcome is unknown, so the operation fails.
pub fn job_lost(id: u64) -> (r: MizError)
    ensures
        r matches MizError::Sysupdate(m) && m@ == "lost track of update job "@ + dec(id as nat)
            + " before completion (no JobRemoved signal)"@,
{
    let mut m = to_owned("lost track of update job ");
    push_dec(&mut m, id);
    push_str(&mut m, " before completion (no JobRemoved signal)");
    MizError::Sysupdate(m)
}

} // verus!
