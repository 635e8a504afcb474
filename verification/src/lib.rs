//! Decision logic of a bundler's file-system watcher, worker pool, transforms and
//! code generation helpers, with its contracts proved.

pub mod execution_context;
pub mod text;
pub mod regex_support;
pub mod watcher;
pub mod filename_template;
pub mod minify;
pub mod worker_pool;
pub mod fs;
pub mod parallelism;
pub mod chunk_type;
pub mod json;
pub mod runtime_code;
pub mod transforms;
pub mod graph;
pub mod node_assets;
