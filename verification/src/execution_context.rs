//! Where and with what evaluated Node.js code runs.
use vstd::prelude::*;

verus! {

/// Where evaluated Node.js code runs.
#[derive(Clone, Copy, Debug, PartialEq, Eq, Structural, Hash)]
pub enum NodeExecutionEnvironment {
    Server,
    WebWorker,
    ServiceWorker,
}

impl NodeExecutionEnvironment {
    /// Whether this environment is a (web or service) worker.
    pub open spec fn spec_is_worker(self) -> bool {
        self is WebWorker || self is ServiceWorker
    }
}

impl Default for NodeExecutionEnvironment {
    fn default() -> (r: Self)
        ensures
            r == NodeExecutionEnvironment::Server,
    {
        NodeExecutionEnvironment::Server
    }
}

/// What evaluated code runs with: the project directory, the chunking context `C` that
/// builds its chunks, the process environment `E`, and where it runs.
pub struct ExecutionContext<C, E> {
    pub project_path: String,
    pub chunking_context: C,
    pub env: E,
    pub environment: NodeExecutionEnvironment,
}

impl<C, E> ExecutionContext<C, E> {
    /// A context for code that runs on the server.
    pub fn new(project_path: String, chunking_context: C, env: E) -> (r: Self)
        ensures
            r.project_path == project_path,
            r.chunking_context == chunking_context,
            r.env == env,
            r.environment == NodeExecutionEnvironment::Server,
    {
        Self::new_with_environment(project_path, chunking_context, env, NodeExecutionEnvironment::Server)
    }

    /// A context for code that runs in `environment`.
    pub fn new_with_environment(project_path: String, chunking_context: C, env: E, environment: NodeExecutionEnvironment) -> (r: Self)
        ensures
            r.project_path == project_path,
            r.chunking_context == chunking_context,
            r.env == env,
            r.environment == environment,
    {
        ExecutionContext { project_path, chunking_context, env, environment }
    }

    /// The project directory.
    pub fn project_path(&self) -> (r: &String)
        ensures
            *r == self.project_path,
    {
        &self.project_path
    }

    /// The chunking context.
    pub fn chunking_context(&self) -> (r: &C)
        ensures
            *r == self.chunking_context,
    {
        &self.chunking_context
    }

    /// The process environment.
    pub fn env(&self) -> (r: &E)
        ensures
            *r == self.env,
    {
        &self.env
    }

    /// Where the code runs.
    pub fn environment(&self) -> (r: NodeExecutionEnvironment)
        ensures
            r == self.environment,
    {
        self.environment
    }

    /// Whether the code runs in a (web or service) worker.
    pub fn is_worker_environment(&self) -> (r: bool)
        ensures
            r == self.environment.spec_is_worker(),
    {
        matches!(self.environment, NodeExecutionEnvironment::WebWorker | NodeExecutionEnvironment::ServiceWorker)
    }
}

} // verus!
