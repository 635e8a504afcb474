//! Pools of web workers, for evaluation in the browser, and the messages exchanged with
//! them (which carry no data yet).
use vstd::prelude::*;

verus! {

/// An informational message from a web worker.
#[derive(Clone, Copy, Debug, PartialEq, Eq, Structural, Default)]
pub struct WebWorkerInfoMessage {}

/// A request from a web worker.
#[derive(Clone, Copy, Debug, PartialEq, Eq, Structural, Default)]
pub struct WebWorkerRequestMessage {}

/// A response to a web worker.
#[derive(Clone, Copy, Debug, PartialEq, Eq, Structural, Default)]
pub struct WebWorkerResponseMessage {}

/// The state kept by an evaluation in a web worker.
#[derive(Clone, Copy, Debug, PartialEq, Eq, Structural, Default)]
pub struct WebWorkerState {}

/// A pool of web workers running one script, with a limit on their number; no worker is
/// active when it is created.
#[derive(Debug)]
pub struct WebWorkerPool {
    worker_script_url: String,
    max_workers: usize,
    active_workers: Vec<String>,
}

impl WebWorkerPool {
    /// A pool of at most `max_workers` workers running `worker_script_url`.
    pub fn new(worker_script_url: String, max_workers: usize) -> (r: WebWorkerPool)
        ensures
            r.worker_script_url() == worker_script_url@,
            r.max_workers() == max_workers,
            r.active_workers().len() == 0,
    {
        WebWorkerPool { worker_script_url, max_workers, active_workers: Vec::new() }
    }

    /// The script the workers run.
    pub closed spec fn worker_script_url(&self) -> Seq<char> {
        self.worker_script_url@
    }

    /// The most workers the pool runs.
    pub closed spec fn max_workers(&self) -> usize {
        self.max_workers
    }

    /// The ids of the active workers.
    pub closed spec fn active_workers(&self) -> Seq<Seq<char>> {
        self.active_workers@.map_values(|s: String| s@)
    }

    /// The script the workers run.
    pub fn script_url(&self) -> (r: &str)
        ensures
            r@ == self.worker_script_url(),
    {
        self.worker_script_url.as_str()
    }

    /// The most workers the pool runs.
    pub fn worker_limit(&self) -> (r: usize)
        ensures
            r == self.max_workers(),
    {
        self.max_workers
    }
}

} // verus!
