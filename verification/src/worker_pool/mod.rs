//! Pools of worker threads that run Node.js code, and the routing of messages between
//! the tasks and the workers.
pub mod state;
pub mod mailbox;
pub mod operation;
pub mod creation;
pub mod thread_pool;
pub mod web;
