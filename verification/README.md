# turbopack_support

The decision logic behind a bundler's file-system watcher, Node.js worker pools,
PostCSS and webpack-loader transforms, runtime code assembly and minifier settings,
written in Verus with its contracts proved.

## Layout

- `src/` — the verified library.
  - `watcher/` — paths and their components, ignore rules and package opt-ins, events,
    the batch of deferred invalidations (an insertion-ordered map of paths), the
    directories watched one by one, the watcher itself and the step function of its
    thread.
  - `worker_pool/` — pool bookkeeping (acquire, release, scale down), message routing
    between tasks and workers, worker creation requests, web worker pools.
  - `fs/` — which disk failures mean "absent", retry and offloading policies, file URLs.
  - `transforms/` — PostCSS configuration lookup and worker messages, webpack loader
    payloads and the modules made of bypassed files.
  - `graph.rs`, `node_assets.rs` — graph traversal and the split of emitted assets into
    internal and external ones.
  - `runtime_code.rs`, `chunk_type.rs`, `filename_template.rs`, `minify.rs` — runtime
    assembly, chunk item ordering, filename placeholders, minifier options and legal
    comments.
  - `text.rs`, `json.rs`, `regex_support.rs` — text helpers, JSON strings and the
    regular-expression calls the rules above rely on.
- `tests/` — tests of the library on concrete values.
- `app/` — what touches the operating system: reading files, retry loops that sleep,
  the notification backend and the thread that drains it, and the environment.

Every public function states its result in `ensures`; laws that relate several calls
are public proof functions named `law_*`.
