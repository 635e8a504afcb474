//! Retries of blocking file-system work run on the file-system thread pool: which failures
//! are retried, how long to wait before the next attempt, and when to give up.
use vstd::prelude::*;
use crate::fs::disk_access::{IoErrorKind, IoFailure};

verus! {

/// The most attempts made at one piece of work.
pub const MAX_RETRY_ATTEMPTS: usize = 10;

/// The Unix codes for "too many open files" in the process (`EMFILE`, 24) and in the
/// system (`ENFILE`, 23).
pub open spec fn is_open_files_limit(code: i32) -> bool {
    code == 24 || code == 23
}

/// A failure that may go away by itself: permission denied, would block, or too many open
/// files.
pub open spec fn spec_can_retry(err: IoFailure) -> bool {
    err.kind == IoErrorKind::PermissionDenied || err.kind == IoErrorKind::WouldBlock
        || (err.raw_os_error matches Some(code) && is_open_files_limit(code))
}

/// Whether the failure `err` may go away by itself, so that the work is tried again.
pub fn can_retry(err: &IoFailure) -> (r: bool)
    ensures
        r == spec_can_retry(*err),
{
    if matches!(err.kind, IoErrorKind::PermissionDenied | IoErrorKind::WouldBlock) {
        return true;
    }
    if let Some(code) = err.raw_os_error {
        if code == 24 || code == 23 {
            return true;
        }
    }
    false
}

/// The wait before the attempt after attempt `attempt`, in milliseconds: a tenth of a
/// second per attempt made.
pub fn get_retry_wait_time(attempt: usize) -> (ms: u64)
    requires
        attempt * 100 <= u64::MAX,
    ensures
        ms == attempt * 100,
{
    (attempt as u64) * 100
}

/// What to do after attempt number `attempt` failed.
#[derive(Clone, Copy, Debug, PartialEq, Eq, Structural)]
pub enum RetryStep {
    /// Wait this many milliseconds, then make the next attempt.
    Retry { wait_ms: u64 },
    /// Report the failure.
    GiveUp,
}

/// The step after attempt number `attempt` failed with `err`.
pub open spec fn spec_after_failure(attempt: usize, err: IoFailure) -> RetryStep {
    if attempt < MAX_RETRY_ATTEMPTS && spec_can_retry(err) {
        RetryStep::Retry { wait_ms: (attempt * 100) as u64 }
    } else {
        RetryStep::GiveUp
    }
}

/// What to do after attempt number `attempt` (counted from one) failed with `err`: wait
/// and try again while fewer than [`MAX_RETRY_ATTEMPTS`] attempts were made and the
/// failure may go away, otherwise give up.
pub fn after_failure(attempt: usize, err: &IoFailure) -> (r: RetryStep)
    ensures
        r == spec_after_failure(attempt, *err),
{
    if attempt < MAX_RETRY_ATTEMPTS && can_retry(err) {
        RetryStep::Retry { wait_ms: get_retry_wait_time(attempt) }
    } else {
        RetryStep::GiveUp
    }
}

/// Starting from attempt one and retrying only as [`after_failure`] says, no more than
/// [`MAX_RETRY_ATTEMPTS`] attempts are made, and each wait is longer than the one before.
pub proof fn law_retry_attempts_bounded(attempt: usize, err: IoFailure)
    requires
        1 <= attempt,
    ensures
        spec_after_failure(attempt, err) is Retry ==> attempt + 1 <= MAX_RETRY_ATTEMPTS,
        spec_after_failure(attempt, err) matches RetryStep::Retry { wait_ms } ==> wait_ms == attempt * 100,
        attempt >= MAX_RETRY_ATTEMPTS ==> spec_after_failure(attempt, err) == RetryStep::GiveUp,
{
}

} // verus!
