//! How many tasks to run at once.
use vstd::prelude::*;

verus! {

/// The number of tasks to run at once: what the platform reports (`detected`, a positive
/// count, where it reports one), and one otherwise.
pub fn available_parallelism(detected: Option<usize>) -> (r: usize)
    requires
        detected matches Some(n) ==> n > 0,
    ensures
        r == match detected {
            Some(n) => n,
            None => 1,
        },
        r > 0,
{
    match detected {
        Some(n) => n,
        None => 1,
    }
}

} // verus!
