//! Retries of blocking file-system work handed to the batching runtime.
use vstd::prelude::*;
use crate::fs::disk_access::{IoErrorKind, IoFailure};

verus! {

/// The most attempts made at one piece of work that fails.
pub const MAX_RETRY_ATTEMPTS: usize = 10;

/// A failure that may go away by itself: permission denied, or would block.
pub open spec fn spec_can_retry(err: IoFailure) -> bool {
    err.kind == IoErrorKind::PermissionDenied || err.kind == IoErrorKind::WouldBlock
}

/// Whether the failure `err` may go away by itself, so that the work is tried again.
pub fn can_retry(err: &IoFailure) -> (r: bool)
    ensures
        r == spec_can_retry(*err),
{
    matches!(err.kind, IoErrorKind::PermissionDenied | IoErrorKind::WouldBlock)
}

/// What came back from one attempt.
#[derive(Debug)]
pub enum Attempt<R> {
    /// The work ran and gave this result.
    Ran(Result<R, IoFailure>),
    /// The work was dropped before it ran, with the runtime that was to run it.
    Dropped,
}

/// What to do after an attempt.
#[derive(Debug)]
pub enum OffloadStep<R> {
    /// Hand this result to the caller.
    Return(Result<R, IoFailure>),
    /// Make another attempt.
    Again,
}

/// The step after attempt number `attempt` (counted from one) gave `outcome`: a success is
/// returned; a failure is retried while fewer than [`MAX_RETRY_ATTEMPTS`] attempts were
/// made and it may go away, and returned otherwise; dropped work is always tried again.
pub fn offload_step<R>(attempt: usize, outcome: Attempt<R>) -> (r: OffloadStep<R>)
    ensures
        match outcome {
            Attempt::Ran(Ok(v)) => r == OffloadStep::Return(Ok::<R, IoFailure>(v)),
            Attempt::Ran(Err(e)) => if attempt >= MAX_RETRY_ATTEMPTS || !spec_can_retry(e) {
                r == OffloadStep::Return(Err::<R, IoFailure>(e))
            } else {
                r == OffloadStep::<R>::Again
            },
            Attempt::Dropped => r == OffloadStep::<R>::Again,
        },
{
    match outcome {
        Attempt::Ran(Ok(v)) => OffloadStep::Return(Ok(v)),
        Attempt::Ran(Err(err)) => {
            if attempt >= MAX_RETRY_ATTEMPTS || !can_retry(&err) {
                OffloadStep::Return(Err(err))
            } else {
                OffloadStep::Again
            }
        },
        Attempt::Dropped => OffloadStep::Again,
    }
}

} // verus!
