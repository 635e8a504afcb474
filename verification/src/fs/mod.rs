//! File-system access: which failures count as absent files, and when a failed access is
//! retried.
pub mod disk_access;
pub mod retry;
pub mod offload_blocking;
pub mod fs_batch;
pub mod uri;
