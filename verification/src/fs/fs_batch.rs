//! Retries of blocking file-system work run in batches, where the work itself may panic.
use vstd::prelude::*;
use crate::fs::disk_access::{IoErrorKind, IoFailure};

verus! {

/// The most attempts made at one piece of work that fails.
pub const MAX_RETRY_ATTEMPTS: usize = 10;

/// The most jobs run together in one batch.
pub const MAX_BATCH_SIZE: usize = 100;

/// A failure that may go away by itself: permission denied, or would block.
pub open spec fn spec_can_retry(err: IoFailure) -> bool {
    err.kind == IoErrorKind::PermissionDenied || err.kind == IoErrorKind::WouldBlock
}

/// Whether the failure `err` may go away by itself, so that the work is tried again.
pub fn can_retry(err: &IoFailure) -> (r: bool)
    ensures
        r == spec_can_retry(*err),
{
    matches!(err.kind, IoErrorKind::PermissionDenied | IoErrorKind::WouldBlock)
}

/// What came back from one attempt.
#[derive(Debug)]
pub enum BatchAttempt<R> {
    /// The work ran and gave this result.
    Ran(Result<R, IoFailure>),
    /// The work panicked with this message.
    Panicked(String),
    /// The work was dropped before it ran, with the batch that was to run it.
    Dropped,
}

/// What to do after an attempt.
#[derive(Debug)]
pub enum BatchStep<R> {
    /// Hand this result to the caller.
    Return(Result<R, IoFailure>),
    /// Make another attempt.
    Again,
    /// Panic in the caller with the work's panic message.
    Resume(String),
}

/// The step after attempt number `attempt` (counted from one) gave `outcome`: a success is
/// returned; a failure is retried while fewer than [`MAX_RETRY_ATTEMPTS`] attempts were
/// made and it may go away, and returned otherwise; a panic of the work is passed on to
/// the caller; dropped work is always tried again.
pub fn batch_step<R>(attempt: usize, outcome: BatchAttempt<R>) -> (r: BatchStep<R>)
    ensures
        match outcome {
            BatchAttempt::Ran(Ok(v)) => r == BatchStep::Return(Ok::<R, IoFailure>(v)),
            BatchAttempt::Ran(Err(e)) => if attempt >= MAX_RETRY_ATTEMPTS || !spec_can_retry(e) {
                r == BatchStep::Return(Err::<R, IoFailure>(e))
            } else {
                r == BatchStep::<R>::Again
            },
            BatchAttempt::Panicked(m) => r == BatchStep::<R>::Resume(m),
            BatchAttempt::Dropped => r == BatchStep::<R>::Again,
        },
{
    match outcome {
        BatchAttempt::Ran(Ok(v)) => BatchStep::Return(Ok(v)),
        BatchAttempt::Ran(Err(err)) => {
            if attempt >= MAX_RETRY_ATTEMPTS || !can_retry(&err) {
                BatchStep::Return(Err(err))
            } else {
                BatchStep::Again
            }
        },
        BatchAttempt::Panicked(message) => BatchStep::Resume(message),
        BatchAttempt::Dropped => BatchStep::Again,
    }
}

/// Whether a batch of `len` jobs may take in one more job that is ready.
pub fn batch_has_room(len: usize) -> (r: bool)
    ensures
        r == (len < MAX_BATCH_SIZE),
{
    len < MAX_BATCH_SIZE
}

} // verus!
