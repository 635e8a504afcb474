//! The code of the ECMAScript runtime for browsers: generated text around embedded runtime
//! files, chosen by the runtime type and how chunks are loaded.
use vstd::prelude::*;
use crate::text::seq_starts_with;
use vstd::string::StringExecFns;
use crate::json::{json_quote, json_string, json_string_array, json_string_list};

verus! {

/// The kind of runtime.
#[derive(Clone, Copy, Debug, PartialEq, Eq, Structural)]
pub enum RuntimeType {
    Production,
    Development,
}

/// How chunks are loaded.
#[derive(Clone, Copy, Debug, PartialEq, Eq, Structural)]
pub enum ChunkLoading {
    Edge,
    NodeJs,
    Dom,
}

/// Where the suffix appended to asset urls comes from.
#[derive(Debug)]
pub enum AssetSuffix {
    /// No suffix.
    Empty,
    /// This suffix.
    Constant(String),
    /// The suffix of the url of the running script.
    Inferred,
    /// The value of this global variable, when it is set.
    FromGlobal(String),
}

/// The settings of the browser runtime.
#[derive(Debug)]
pub struct BrowserRuntimeOptions {
    pub chunk_base_path: Option<String>,
    pub asset_suffix: AssetSuffix,
    pub worker_forwarded_globals: Vec<String>,
    pub runtime_type: RuntimeType,
    pub output_root_to_root_path: String,
    pub chunk_loading_global: String,
    pub entry_root_export: Option<String>,
    pub chunk_loading: ChunkLoading,
    pub supports_commonjs_externals: bool,
    pub node_externals: bool,
    pub supports_wasm: bool,
}

/// A piece of the runtime: generated text, or the code of an embedded runtime file.
#[derive(Debug)]
pub enum RuntimePiece {
    Text(String),
    Embedded(String),
}

/// A piece as characters.
pub enum PieceView {
    Text(Seq<char>),
    Embedded(Seq<char>),
}

/// The view of a piece.
pub open spec fn piece_view(p: RuntimePiece) -> PieceView {
    match p {
        RuntimePiece::Text(s) => PieceView::Text(s@),
        RuntimePiece::Embedded(s) => PieceView::Embedded(s@),
    }
}

/// The views of a list of pieces.
pub open spec fn pieces_view(v: Seq<RuntimePiece>) -> Seq<PieceView> {
    v.map_values(|p: RuntimePiece| piece_view(p))
}

/// The expression for the global object, whichever of `globalThis`, `self`, `window` and
/// `global` exists.
pub const GLOBAL_THIS_FALLBACK_EXPR: &'static str = "typeof globalThis !== \"undefined\" ? globalThis : (typeof self !== \"undefined\" ? self : (typeof window !== \"undefined\" ? window : (typeof global !== \"undefined\" ? global : {})))";

/// The embedded runtime files shared by all backends, in order.
pub open spec fn spec_base_files(runtime_type: RuntimeType) -> Seq<Seq<char>> {
    match runtime_type {
        RuntimeType::Production => seq!["browser/runtime/base/runtime-base.ts"@, "browser/runtime/base/build-base.ts"@],
        RuntimeType::Development => seq![
            "browser/runtime/base/runtime-base.ts"@,
            "shared/runtime/hmr-runtime.ts"@,
            "browser/runtime/base/dev-base.ts"@,
        ],
    }
}

/// The embedded runtime files of the chunk-loading backend, in order.
pub open spec fn spec_backend_files(chunk_loading: ChunkLoading, runtime_type: RuntimeType) -> Seq<Seq<char>> {
    match (chunk_loading, runtime_type) {
        (ChunkLoading::Edge, RuntimeType::Development) => seq![
            "browser/runtime/edge/runtime-backend-edge.ts"@,
            "browser/runtime/edge/dev-backend-edge.ts"@,
        ],
        (ChunkLoading::Edge, RuntimeType::Production) => seq!["browser/runtime/edge/runtime-backend-edge.ts"@],
        (ChunkLoading::Dom, RuntimeType::Development) => seq![
            "browser/runtime/dom/runtime-backend-dom.ts"@,
            "browser/runtime/dom/dev-backend-dom.ts"@,
        ],
        (ChunkLoading::Dom, RuntimeType::Production) => seq!["browser/runtime/dom/runtime-backend-dom.ts"@],
        (ChunkLoading::NodeJs, _) => Seq::empty(),
    }
}

/// Law: the chunk-loading backend embedded for edge loading is made of edge files only,
/// and the one for DOM loading of DOM files only, each led by its runtime backend; a
/// development runtime adds the development backend of the same kind after the files of a
/// production runtime.
pub proof fn law_backend_files_match_chunk_loading(chunk_loading: ChunkLoading)
    requires
        chunk_loading != ChunkLoading::NodeJs,
    ensures
        ({
            let (dir, lead, dev) = if chunk_loading == ChunkLoading::Edge {
                ("browser/runtime/edge/"@, "browser/runtime/edge/runtime-backend-edge.ts"@, "browser/runtime/edge/dev-backend-edge.ts"@)
            } else {
                ("browser/runtime/dom/"@, "browser/runtime/dom/runtime-backend-dom.ts"@, "browser/runtime/dom/dev-backend-dom.ts"@)
            };
            &&& forall|t: RuntimeType, i: int| 0 <= i < spec_backend_files(chunk_loading, t).len()
                ==> seq_starts_with(#[trigger] spec_backend_files(chunk_loading, t)[i], dir)
            &&& forall|t: RuntimeType| spec_backend_files(chunk_loading, t).len() > 0 && #[trigger] spec_backend_files(chunk_loading, t)[0] == lead
            &&& spec_backend_files(chunk_loading, RuntimeType::Development) == spec_backend_files(chunk_loading, RuntimeType::Production).push(dev)
        }),
{
    reveal_strlit("browser/runtime/edge/");
    reveal_strlit("browser/runtime/edge/runtime-backend-edge.ts");
    reveal_strlit("browser/runtime/edge/dev-backend-edge.ts");
    reveal_strlit("browser/runtime/dom/");
    reveal_strlit("browser/runtime/dom/runtime-backend-dom.ts");
    reveal_strlit("browser/runtime/dom/dev-backend-dom.ts");
    let dir_e = "browser/runtime/edge/"@;
    let dir_d = "browser/runtime/dom/"@;
    assert(seq_starts_with("browser/runtime/edge/runtime-backend-edge.ts"@, dir_e)) by {
        assert("browser/runtime/edge/runtime-backend-edge.ts"@.subrange(0, dir_e.len() as int) =~= dir_e);
    }
    assert(seq_starts_with("browser/runtime/edge/dev-backend-edge.ts"@, dir_e)) by {
        assert("browser/runtime/edge/dev-backend-edge.ts"@.subrange(0, dir_e.len() as int) =~= dir_e);
    }
    assert(seq_starts_with("browser/runtime/dom/runtime-backend-dom.ts"@, dir_d)) by {
        assert("browser/runtime/dom/runtime-backend-dom.ts"@.subrange(0, dir_d.len() as int) =~= dir_d);
    }
    assert(seq_starts_with("browser/runtime/dom/dev-backend-dom.ts"@, dir_d)) by {
        assert("browser/runtime/dom/dev-backend-dom.ts"@.subrange(0, dir_d.len() as int) =~= dir_d);
    }
    assert(spec_backend_files(chunk_loading, RuntimeType::Development) =~= spec_backend_files(chunk_loading, RuntimeType::Production).push(
        if chunk_loading == ChunkLoading::Edge { "browser/runtime/edge/dev-backend-edge.ts"@ } else { "browser/runtime/dom/dev-backend-dom.ts"@ },
    ));
    assert forall|t: RuntimeType, i: int| 0 <= i < spec_backend_files(chunk_loading, t).len()
        implies seq_starts_with(#[trigger] spec_backend_files(chunk_loading, t)[i],
            if chunk_loading == ChunkLoading::Edge { dir_e } else { dir_d }) by {
    }
}

/// The embedded runtime files shared by all backends, in order.
pub fn runtime_base_files(runtime_type: RuntimeType) -> (r: Vec<String>)
    ensures
        names_of(r@) == spec_base_files(runtime_type),
{
    let mut r: Vec<String> = Vec::new();
    r.push("browser/runtime/base/runtime-base.ts".to_owned());
    match runtime_type {
        RuntimeType::Production => r.push("browser/runtime/base/build-base.ts".to_owned()),
        RuntimeType::Development => {
            r.push("shared/runtime/hmr-runtime.ts".to_owned());
            r.push("browser/runtime/base/dev-base.ts".to_owned());
        },
    }
    assert(names_of(r@) =~= spec_base_files(runtime_type));
    r
}

/// The embedded runtime files of the chunk-loading backend, in order. Chunks of the
/// browser runtime are never loaded as Node.js does.
pub fn runtime_backend_files(chunk_loading: ChunkLoading, runtime_type: RuntimeType) -> (r: Vec<String>)
    requires
        chunk_loading != ChunkLoading::NodeJs,
    ensures
        names_of(r@) == spec_backend_files(chunk_loading, runtime_type),
{
    let mut r: Vec<String> = Vec::new();
    match chunk_loading {
        ChunkLoading::Edge => {
            r.push("browser/runtime/edge/runtime-backend-edge.ts".to_owned());
            if runtime_type == RuntimeType::Development {
                r.push("browser/runtime/edge/dev-backend-edge.ts".to_owned());
            }
        },
        _ => {
            r.push("browser/runtime/dom/runtime-backend-dom.ts".to_owned());
            if runtime_type == RuntimeType::Development {
                r.push("browser/runtime/dom/dev-backend-dom.ts".to_owned());
            }
        },
    }
    assert(names_of(r@) =~= spec_backend_files(chunk_loading, runtime_type));
    r
}

/// The opening of the runtime when the entry's exports are exposed under `export_name`:
/// a universal module wrapper around the runtime.
pub open spec fn spec_open_exporting(export_name: Seq<char>, chunk_loading_global: Seq<char>, chunk_base_path: Seq<char>, root_path: Seq<char>) -> Seq<char> {
    "(function(root, factory) {\n    if (typeof exports === 'object' && typeof module === 'object')\n        module.exports = factory();\n    else if (typeof exports === 'object')\n        exports["@
        + json_quote(export_name) + "] = factory();\n    else\n        root["@ + json_quote(export_name)
        + "] = factory();\n}(typeof self !== 'undefined' ? self : this, function() {\n\nvar __chunk__ = (function() {\nvar __turbopack_global__ = "@
        + GLOBAL_THIS_FALLBACK_EXPR@ + ";\nvar globalThis = __turbopack_global__;\nif (!Array.isArray(__turbopack_global__[\""@
        + chunk_loading_global + "\"])) {\n    return;\n}\n\nvar __entryExports__ = undefined;\n\nvar CHUNK_BASE_PATH = "@
        + json_quote(chunk_base_path) + ";\nvar RELATIVE_ROOT_PATH = "@ + json_quote(root_path)
        + ";\nvar RUNTIME_PUBLIC_PATH = "@ + json_quote(chunk_base_path) + ";\n"@
}

/// The opening of the runtime otherwise: an immediately invoked function.
pub open spec fn spec_open_plain(chunk_loading_global: Seq<char>, chunk_base_path: Seq<char>, root_path: Seq<char>) -> Seq<char> {
    "(() => {\nvar __turbopack_global__ = "@ + GLOBAL_THIS_FALLBACK_EXPR@
        + ";\nvar globalThis = __turbopack_global__;\nif (!Array.isArray(__turbopack_global__["@
        + json_quote(chunk_loading_global) + "])) {\n    return;\n}\n\nvar CHUNK_BASE_PATH = "@
        + json_quote(chunk_base_path) + ";\nvar RELATIVE_ROOT_PATH = "@ + json_quote(root_path)
        + ";\nvar RUNTIME_PUBLIC_PATH = "@ + json_quote(chunk_base_path) + ";\n"@
}

/// The line that sets the asset suffix.
pub open spec fn spec_asset_suffix_line(suffix: AssetSuffix) -> Seq<char> {
    match suffix {
        AssetSuffix::Empty => "var ASSET_SUFFIX = \"\";\n"@,
        AssetSuffix::Constant(s) => "var ASSET_SUFFIX = "@ + json_quote(s@) + ";\n"@,
        AssetSuffix::Inferred => "var ASSET_SUFFIX = getAssetSuffixFromScriptSrc();\n"@,
        AssetSuffix::FromGlobal(g) => "var ASSET_SUFFIX = __turbopack_global__["@ + json_quote(g@) + "] || \"\";\n"@,
    }
}

/// The registration of the chunks loaded before the runtime, and of those loaded after.
pub open spec fn spec_register_chunks(chunk_loading_global: Seq<char>) -> Seq<char> {
    "var chunksToRegister = __turbopack_global__["@ + json_quote(chunk_loading_global)
        + "] || [];\n__turbopack_global__["@ + json_quote(chunk_loading_global)
        + "] = { push: registerChunk };\nchunksToRegister.forEach(registerChunk);\n"@
}

/// The registration of the chunk lists, for development.
pub open spec fn spec_register_chunk_lists(chunk_loading_global: Seq<char>) -> Seq<char> {
    "var chunkListsToRegister = __turbopack_global__["@ + json_quote(chunk_loading_global + "_CHUNK_LISTS"@)
        + "] || [];\n__turbopack_global__["@ + json_quote(chunk_loading_global + "_CHUNK_LISTS"@)
        + "] = { push: registerChunkList };\nchunkListsToRegister.forEach(registerChunkList);\n"@
}

/// The code that picks the entry exports once the chunks are registered.
pub const EXPOSE_ENTRY_EXPORTS: &'static str = "\ntry {\nfor (var i = 0; i < chunksToRegister.length; i++) {\n    var registration = chunksToRegister[i];\n    var runtimeParams = registration.length === 2 ? registration[1] : null;\n    if (runtimeParams && runtimeParams.runtimeModuleIds && runtimeParams.runtimeModuleIds.length > 0) {\n        var entryModuleId = runtimeParams.runtimeModuleIds[runtimeParams.runtimeModuleIds.length - 1];\n        var chunkPath = getPathFromScript(registration[0]);\n\n        var entryModule = getOrInstantiateRuntimeModule(chunkPath, entryModuleId);\n\n        if (entryModule && entryModule.exports) {\n            var moduleExports = entryModule.namespaceObject || entryModule.exports;\n\n            // Save for return value (will be handled by UMD wrapper)\n            __entryExports__ = moduleExports;\n        }\n        break;\n    }\n}\n} catch (e) {\n    console.error('Failed to expose entry module exports:', e);\n}\n";

/// The closing of the runtime that returns the entry exports through the module wrapper.
pub const CLOSE_EXPORTING: &'static str = "    return __entryExports__;\n})();\n\n// Return the exports from the factory function\nreturn __chunk__;\n}));\n";

/// The closing of the runtime otherwise.
pub const CLOSE_PLAIN: &'static str = "})();\n";

/// The file names as embedded pieces.
pub open spec fn embedded(files: Seq<Seq<char>>) -> Seq<PieceView> {
    files.map_values(|f: Seq<char>| PieceView::Embedded(f))
}

/// The embedded helpers for externals and WebAssembly the environment asks for.
pub open spec fn spec_environment_files(commonjs_externals: bool, node_externals: bool, wasm: bool) -> Seq<Seq<char>> {
    (if commonjs_externals { seq!["shared-node/base-externals-utils.ts"@] } else { Seq::empty() })
        + (if node_externals { seq!["shared-node/node-externals-utils.ts"@] } else { Seq::empty() })
        + (if wasm { seq!["shared-node/node-wasm-utils.ts"@] } else { Seq::empty() })
}

/// The pieces of the browser runtime for the settings `o`.
pub open spec fn spec_browser_runtime(o: BrowserRuntimeOptions) -> Seq<PieceView> {
    seq![
        PieceView::Text(spec_opening(o)),
        PieceView::Text(spec_asset_suffix_line(o.asset_suffix)),
        PieceView::Text(spec_worker_globals_line(o.worker_forwarded_globals@)),
        PieceView::Embedded("shared/runtime/runtime-utils.ts"@),
    ]
        + embedded(spec_base_files(o.runtime_type))
        + embedded(spec_environment_files(o.supports_commonjs_externals, o.node_externals, o.supports_wasm))
        + embedded(spec_backend_files(o.chunk_loading, o.runtime_type))
        + seq![PieceView::Text(spec_register_chunks(o.chunk_loading_global@))]
        + (if o.runtime_type == RuntimeType::Development {
            seq![PieceView::Text(spec_register_chunk_lists(o.chunk_loading_global@))]
        } else {
            Seq::empty()
        })
        + (match o.entry_root_export {
            Some(_) => seq![PieceView::Text(EXPOSE_ENTRY_EXPORTS@), PieceView::Text(CLOSE_EXPORTING@)],
            None => seq![PieceView::Text(CLOSE_PLAIN@)],
        })
}

/// The texts of a list of strings.
pub open spec fn names_of(v: Seq<String>) -> Seq<Seq<char>> {
    v.map_values(|s: String| s@)
}

/// Appends `files` as embedded pieces.
fn push_embedded(out: &mut Vec<RuntimePiece>, files: Vec<String>)
    ensures
        pieces_view(final(out)@) == pieces_view(old(out)@) + embedded(names_of(files@)),
{
    let ghost start = pieces_view(out@);
    let ghost names = names_of(files@);
    let mut files = files;
    let mut i: usize = 0;
    let total = files.len();
    while files.len() > 0
        invariant
            i + files@.len() == total,
            names.len() == total,
            names_of(files@) == names.subrange(i as int, total as int),
            pieces_view(out@) == start + embedded(names.subrange(0, i as int)),
        decreases files@.len(),
    {
        let ghost fv = files@;
        let f = files.remove(0);
        proof {
            assert(names_of(fv)[0] == f@);
            assert(names.subrange(i as int, total as int)[0] == names[i as int]);
            assert(names_of(files@) =~= names.subrange(i + 1, total as int)) by {
                assert forall|j: int| 0 <= j < files@.len() implies #[trigger] names_of(files@)[j]
                    == names.subrange(i + 1, total as int)[j] by {
                    assert(files@[j] == fv[j + 1]);
                    assert(names_of(fv)[j + 1] == names.subrange(i as int, total as int)[j + 1]);
                }
            }
        }
        let ghost before = out@;
        out.push(RuntimePiece::Embedded(f));
        proof {
            assert(pieces_view(out@) =~= pieces_view(before).push(PieceView::Embedded(names[i as int])));
            assert(embedded(names.subrange(0, i + 1)) =~= embedded(names.subrange(0, i as int)).push(PieceView::Embedded(names[i as int])));
        }
        i = i + 1;
    }
    assert(names.subrange(0, i as int) =~= names);
}

/// Appends a text piece.
fn push_text(out: &mut Vec<RuntimePiece>, text: String)
    ensures
        pieces_view(final(out)@) == pieces_view(old(out)@).push(PieceView::Text(text@)),
{
    out.push(RuntimePiece::Text(text));
    assert(pieces_view(final(out)@) =~= pieces_view(old(out)@).push(PieceView::Text(text@)));
}

/// The opening of the runtime for the settings `o`.
pub open spec fn spec_opening(o: BrowserRuntimeOptions) -> Seq<char> {
    let base = match o.chunk_base_path {
        Some(p) => p@,
        None => Seq::empty(),
    };
    match o.entry_root_export {
        Some(e) => spec_open_exporting(e@, o.chunk_loading_global@, base, o.output_root_to_root_path@),
        None => spec_open_plain(o.chunk_loading_global@, base, o.output_root_to_root_path@),
    }
}

/// The line with the globals forwarded to workers.
pub open spec fn spec_worker_globals_line(globals: Seq<String>) -> Seq<char> {
    "var WORKER_FORWARDED_GLOBALS = "@ + json_string_array(globals.map_values(|s: String| s@)) + ";\n"@
}

fn runtime_opening(o: &BrowserRuntimeOptions) -> (r: String)
    ensures
        r@ == spec_opening(*o),
{
    let base: &str = match &o.chunk_base_path {
        Some(p) => p.as_str(),
        None => "",
    };
    let ghost base_view = match &o.chunk_base_path {
        Some(p) => p@,
        None => Seq::<char>::empty(),
    };
    proof {
        reveal_strlit("");
    }
    assert(base@ == base_view);
    let quoted_base = json_string(base);
    let quoted_root = json_string(o.output_root_to_root_path.as_str());
    let mut opening: String;
    match &o.entry_root_export {
        Some(export_name) => {
            let quoted_export = json_string(export_name.as_str());
            opening = "(function(root, factory) {\n    if (typeof exports === 'object' && typeof module === 'object')\n        module.exports = factory();\n    else if (typeof exports === 'object')\n        exports[".to_owned();
            opening.append(quoted_export.as_str());
            opening.append("] = factory();\n    else\n        root[");
            opening.append(quoted_export.as_str());
            opening.append("] = factory();\n}(typeof self !== 'undefined' ? self : this, function() {\n\nvar __chunk__ = (function() {\nvar __turbopack_global__ = ");
            opening.append(GLOBAL_THIS_FALLBACK_EXPR);
            opening.append(";\nvar globalThis = __turbopack_global__;\nif (!Array.isArray(__turbopack_global__[\"");
            opening.append(o.chunk_loading_global.as_str());
            opening.append("\"])) {\n    return;\n}\n\nvar __entryExports__ = undefined;\n\nvar CHUNK_BASE_PATH = ");
            opening.append(quoted_base.as_str());
            opening.append(";\nvar RELATIVE_ROOT_PATH = ");
            opening.append(quoted_root.as_str());
            opening.append(";\nvar RUNTIME_PUBLIC_PATH = ");
            opening.append(quoted_base.as_str());
            opening.append(";\n");
            assert(opening@ =~= spec_open_exporting(export_name@, o.chunk_loading_global@, base_view, o.output_root_to_root_path@));
        },
        None => {
            let quoted_global = json_string(o.chunk_loading_global.as_str());
            opening = "(() => {\nvar __turbopack_global__ = ".to_owned();
            opening.append(GLOBAL_THIS_FALLBACK_EXPR);
            opening.append(";\nvar globalThis = __turbopack_global__;\nif (!Array.isArray(__turbopack_global__[");
            opening.append(quoted_global.as_str());
            opening.append("])) {\n    return;\n}\n\nvar CHUNK_BASE_PATH = ");
            opening.append(quoted_base.as_str());
            opening.append(";\nvar RELATIVE_ROOT_PATH = ");
            opening.append(quoted_root.as_str());
            opening.append(";\nvar RUNTIME_PUBLIC_PATH = ");
            opening.append(quoted_base.as_str());
            opening.append(";\n");
            assert(opening@ =~= spec_open_plain(o.chunk_loading_global@, base_view, o.output_root_to_root_path@));
        },
    }
    opening
}

fn asset_suffix_line(suffix: &AssetSuffix) -> (r: String)
    ensures
        r@ == spec_asset_suffix_line(*suffix),
{
    let line = match suffix {
        AssetSuffix::Empty => "var ASSET_SUFFIX = \"\";\n".to_owned(),
        AssetSuffix::Constant(s) => {
            let mut line = "var ASSET_SUFFIX = ".to_owned();
            line.append(json_string(s.as_str()).as_str());
            line.append(";\n");
            line
        },
        AssetSuffix::Inferred => "var ASSET_SUFFIX = getAssetSuffixFromScriptSrc();\n".to_owned(),
        AssetSuffix::FromGlobal(global_name) => {
            let mut line = "var ASSET_SUFFIX = __turbopack_global__[".to_owned();
            line.append(json_string(global_name.as_str()).as_str());
            line.append("] || \"\";\n");
            line
        },
    };
    assert(line@ =~= spec_asset_suffix_line(*suffix));
    line
}

fn worker_globals_line(globals: &Vec<String>) -> (r: String)
    ensures
        r@ == spec_worker_globals_line(globals@),
{
    let mut line = "var WORKER_FORWARDED_GLOBALS = ".to_owned();
    line.append(json_string_list(globals).as_str());
    line.append(";\n");
    assert(line@ =~= spec_worker_globals_line(globals@));
    line
}

fn register_chunks(chunk_loading_global: &str) -> (r: String)
    ensures
        r@ == spec_register_chunks(chunk_loading_global@),
{
    let quoted = json_string(chunk_loading_global);
    let mut text = "var chunksToRegister = __turbopack_global__[".to_owned();
    text.append(quoted.as_str());
    text.append("] || [];\n__turbopack_global__[");
    text.append(quoted.as_str());
    text.append("] = { push: registerChunk };\nchunksToRegister.forEach(registerChunk);\n");
    assert(text@ =~= spec_register_chunks(chunk_loading_global@));
    text
}

fn register_chunk_lists(chunk_loading_global: &str) -> (r: String)
    ensures
        r@ == spec_register_chunk_lists(chunk_loading_global@),
{
    let mut lists_global = chunk_loading_global.to_owned();
    lists_global.append("_CHUNK_LISTS");
    let quoted = json_string(lists_global.as_str());
    let mut text = "var chunkListsToRegister = __turbopack_global__[".to_owned();
    text.append(quoted.as_str());
    text.append("] || [];\n__turbopack_global__[");
    text.append(quoted.as_str());
    text.append("] = { push: registerChunkList };\nchunkListsToRegister.forEach(registerChunkList);\n");
    assert(text@ =~= spec_register_chunk_lists(chunk_loading_global@));
    text
}

fn environment_files(commonjs_externals: bool, node_externals: bool, wasm: bool) -> (r: Vec<String>)
    ensures
        names_of(r@) == spec_environment_files(commonjs_externals, node_externals, wasm),
{
    let mut files: Vec<String> = Vec::new();
    if commonjs_externals {
        files.push("shared-node/base-externals-utils.ts".to_owned());
    }
    if node_externals {
        files.push("shared-node/node-externals-utils.ts".to_owned());
    }
    if wasm {
        files.push("shared-node/node-wasm-utils.ts".to_owned());
    }
    assert(names_of(files@) =~= spec_environment_files(commonjs_externals, node_externals, wasm));
    files
}

/// Appends an embedded piece.
fn push_file(out: &mut Vec<RuntimePiece>, file: String)
    ensures
        pieces_view(final(out)@) == pieces_view(old(out)@).push(PieceView::Embedded(file@)),
{
    out.push(RuntimePiece::Embedded(file));
    assert(pieces_view(final(out)@) =~= pieces_view(old(out)@).push(PieceView::Embedded(file@)));
}

/// The pieces of the browser runtime, to be joined in order: the opening (a module
/// wrapper when the entry's exports are exposed), the asset suffix and the globals
/// forwarded to workers, the shared and base runtime files, the helpers the environment
/// asks for, the chunk-loading backend, the registration of chunks (and of chunk lists in
/// development), and the closing. Chunks are never loaded as Node.js does here, and the
/// asset suffix is not inferred from the script on the edge.
#[verifier::rlimit(40)]
pub fn get_browser_runtime_code(o: &BrowserRuntimeOptions) -> (r: Vec<RuntimePiece>)
    requires
        o.chunk_loading != ChunkLoading::NodeJs,
        o.asset_suffix is Inferred ==> o.chunk_loading != ChunkLoading::Edge,
    ensures
        pieces_view(r@) == spec_browser_runtime(*o),
{
    let mut out: Vec<RuntimePiece> = Vec::new();
    push_text(&mut out, runtime_opening(o));
    push_text(&mut out, asset_suffix_line(&o.asset_suffix));
    push_text(&mut out, worker_globals_line(&o.worker_forwarded_globals));
    push_file(&mut out, "shared/runtime/runtime-utils.ts".to_owned());
    let ghost head = pieces_view(out@);
    push_embedded(&mut out, runtime_base_files(o.runtime_type));
    push_embedded(&mut out, environment_files(o.supports_commonjs_externals, o.node_externals, o.supports_wasm));
    push_embedded(&mut out, runtime_backend_files(o.chunk_loading, o.runtime_type));
    let ghost files = pieces_view(out@);
    push_text(&mut out, register_chunks(o.chunk_loading_global.as_str()));
    let ghost registered = pieces_view(out@);
    if o.runtime_type == RuntimeType::Development {
        push_text(&mut out, register_chunk_lists(o.chunk_loading_global.as_str()));
    }
    let ghost before_close = pieces_view(out@);
    if o.entry_root_export.is_some() {
        push_text(&mut out, EXPOSE_ENTRY_EXPORTS.to_owned());
        push_text(&mut out, CLOSE_EXPORTING.to_owned());
    } else {
        push_text(&mut out, CLOSE_PLAIN.to_owned());
    }
    proof {
        assert(head =~= seq![
            PieceView::Text(spec_opening(*o)),
            PieceView::Text(spec_asset_suffix_line(o.asset_suffix)),
            PieceView::Text(spec_worker_globals_line(o.worker_forwarded_globals@)),
            PieceView::Embedded("shared/runtime/runtime-utils.ts"@),
        ]);
        assert(pieces_view(out@) =~= spec_browser_runtime(*o));
    }
    out
}

/// The code that starts a web worker: the embedded worker entry point.
pub fn get_worker_runtime_code() -> (r: RuntimePiece)
    ensures
        piece_view(r) == PieceView::Embedded("browser/runtime/base/worker-entrypoint.ts"@),
{
    RuntimePiece::Embedded("browser/runtime/base/worker-entrypoint.ts".to_owned())
}

} // verus!
