use turbopack_support::runtime_code::{
    AssetSuffix, BrowserRuntimeOptions, ChunkLoading, RuntimePiece, RuntimeType, get_browser_runtime_code,
    get_worker_runtime_code, runtime_backend_files, runtime_base_files,
};

fn options(runtime_type: RuntimeType, entry_root_export: Option<&str>) -> BrowserRuntimeOptions {
    BrowserRuntimeOptions {
        chunk_base_path: Some("/_next/".to_string()),
        asset_suffix: AssetSuffix::Constant("?v=1".to_string()),
        worker_forwarded_globals: vec!["A".to_string(), "B\"".to_string()],
        runtime_type,
        output_root_to_root_path: "../..".to_string(),
        chunk_loading_global: "TURBOPACK".to_string(),
        entry_root_export: entry_root_export.map(|e| e.to_string()),
        chunk_loading: ChunkLoading::Dom,
        supports_commonjs_externals: false,
        node_externals: false,
        supports_wasm: true,
    }
}

fn describe(pieces: &[RuntimePiece]) -> Vec<String> {
    pieces
        .iter()
        .map(|p| match p {
            RuntimePiece::Text(t) => format!("text:{t}"),
            RuntimePiece::Embedded(f) => format!("file:{f}"),
        })
        .collect()
}

#[test]
fn production_runtime_pieces() {
    let pieces = describe(&get_browser_runtime_code(&options(RuntimeType::Production, None)));
    assert!(pieces[0].starts_with("text:(() => {\nvar __turbopack_global__ = typeof globalThis"));
    assert!(pieces[0].contains("if (!Array.isArray(__turbopack_global__[\"TURBOPACK\"])) {\n    return;\n}\n"));
    assert!(pieces[0].ends_with(
        "var CHUNK_BASE_PATH = \"/_next/\";\nvar RELATIVE_ROOT_PATH = \"../..\";\nvar RUNTIME_PUBLIC_PATH = \"/_next/\";\n"
    ));
    assert_eq!(pieces[1], "text:var ASSET_SUFFIX = \"?v=1\";\n");
    assert_eq!(pieces[2], "text:var WORKER_FORWARDED_GLOBALS = [\"A\",\"B\\\"\"];\n");
    assert_eq!(
        pieces[3..8].to_vec(),
        vec![
            "file:shared/runtime/runtime-utils.ts",
            "file:browser/runtime/base/runtime-base.ts",
            "file:browser/runtime/base/build-base.ts",
            "file:shared-node/node-wasm-utils.ts",
            "file:browser/runtime/dom/runtime-backend-dom.ts",
        ]
    );
    assert_eq!(
        pieces[8],
        "text:var chunksToRegister = __turbopack_global__[\"TURBOPACK\"] || [];\n__turbopack_global__[\"TURBOPACK\"] = { push: registerChunk };\nchunksToRegister.forEach(registerChunk);\n"
    );
    assert_eq!(pieces[9], "text:})();\n");
    assert_eq!(pieces.len(), 10);
}

#[test]
fn development_runtime_with_exposed_exports() {
    let pieces = describe(&get_browser_runtime_code(&options(RuntimeType::Development, Some("lib"))));
    assert!(pieces[0].starts_with("text:(function(root, factory) {\n"));
    assert!(pieces[0].contains("exports[\"lib\"] = factory();"));
    assert!(pieces[0].contains("if (!Array.isArray(__turbopack_global__[\"TURBOPACK\"])) {"));
    assert!(pieces.contains(&"file:shared/runtime/hmr-runtime.ts".to_string()));
    assert!(pieces.contains(&"file:browser/runtime/dom/dev-backend-dom.ts".to_string()));
    let n = pieces.len();
    assert!(pieces[n - 4].contains("chunksToRegister.forEach(registerChunk);"));
    assert!(pieces[n - 3].contains("__turbopack_global__[\"TURBOPACK_CHUNK_LISTS\"] = { push: registerChunkList };"));
    assert!(pieces[n - 2].starts_with("text:\ntry {\n"));
    assert_eq!(
        pieces[n - 1],
        "text:    return __entryExports__;\n})();\n\n// Return the exports from the factory function\nreturn __chunk__;\n}));\n"
    );
}

#[test]
fn runtime_file_lists() {
    assert_eq!(runtime_base_files(RuntimeType::Production).len(), 2);
    assert_eq!(runtime_base_files(RuntimeType::Development).len(), 3);
    assert_eq!(
        runtime_backend_files(ChunkLoading::Edge, RuntimeType::Development),
        vec!["browser/runtime/edge/runtime-backend-edge.ts", "browser/runtime/edge/dev-backend-edge.ts"]
    );
    assert!(matches!(get_worker_runtime_code(), RuntimePiece::Embedded(ref f) if f == "browser/runtime/base/worker-entrypoint.ts"));
}

#[test]
fn json_string_lists() {
    let mut o = options(RuntimeType::Production, None);
    o.worker_forwarded_globals = vec![];
    assert_eq!(describe(&get_browser_runtime_code(&o))[2], "text:var WORKER_FORWARDED_GLOBALS = [];\n");
    o.worker_forwarded_globals = vec!["a\u{1}\t".to_string(), "é".to_string()];
    assert_eq!(
        describe(&get_browser_runtime_code(&o))[2],
        "text:var WORKER_FORWARDED_GLOBALS = [\"a\\u0001\\t\",\"é\"];\n"
    );
}
