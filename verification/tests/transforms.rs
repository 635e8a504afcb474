use turbopack_support::transforms::config::{
    BrowserConfigError, BrowserPostCssConfigLocation, ConfigLoader, PostCssConfigLocation, browser_config_module,
    browser_postcss_configs, config_loader, file_name, find_browser_config_in_location, find_config_in_location,
    postcss_configs,
};
use turbopack_support::transforms::postcss_worker::{
    CssContent, PostCssOutput, finish_postcss_worker, on_worker_message, transformation_result,
    ReplyAction, SourceFile, TransformStart, WorkerPhase, WorkerReply, classify_reply, init_message, processing_result,
    replace_str, start_browser_postcss, start_postcss_worker, transform_message,
};
use turbopack_support::transforms::webpack_worker::{
    IdentChange, LoaderContent, LoaderItem, LoaderRun, LoaderSource, execute_webpack_loaders_webworker, loader_content,
    loader_payload, loader_resource_path, process_webworker_webpack_loaders, processed_asset_ident,
};

#[test]
fn postcss_config_names_in_search_order() {
    let names = postcss_configs();
    assert_eq!(names.len(), 18);
    assert_eq!(names[0], ".postcssrc");
    assert_eq!(names[7], ".config/postcssrc");
    assert_eq!(names[17], "postcss.config.json");
    assert_eq!(browser_postcss_configs(), names);
    assert_eq!(PostCssConfigLocation::default(), PostCssConfigLocation::ProjectPath);
    assert_eq!(BrowserPostCssConfigLocation::default(), BrowserPostCssConfigLocation::ProjectPath);
}

#[test]
fn config_location_decides_fallback() {
    let p = Some("/p/postcss.config.js".to_string());
    let s = Some("/p/src/.postcssrc".to_string());
    assert_eq!(find_config_in_location(PostCssConfigLocation::ProjectPath, p.clone(), s.clone()), p);
    assert_eq!(find_config_in_location(PostCssConfigLocation::ProjectPath, None, s.clone()), None);
    assert_eq!(find_config_in_location(PostCssConfigLocation::ProjectPathOrLocalPath, None, s.clone()), s);
    assert_eq!(
        find_browser_config_in_location(BrowserPostCssConfigLocation::ProjectPathOrLocalPath, None, None),
        None
    );
}

#[test]
fn config_files_are_loaded_by_kind() {
    assert_eq!(file_name("/p/a/package.json"), "package.json");
    assert_eq!(file_name("plain"), "plain");
    assert!(matches!(config_loader("/p/package.json"), ConfigLoader::PackageJsonKey(ref k) if k == "postcss"));
    assert!(matches!(config_loader("/p/.postcssrc"), ConfigLoader::Json));
    assert!(matches!(config_loader("/p/postcss.config.json"), ConfigLoader::Json));
    assert!(matches!(config_loader("/p/postcss.config.js"), ConfigLoader::Script));
    let m = browser_config_module("/p/postcss.config.js", true, Some("module.exports = {\"a\": 1}")).unwrap();
    assert_eq!(m.path, "/p/postcss.config.js_.browser-config.mjs");
    assert_eq!(m.code, "export default \"module.exports = {\\\"a\\\": 1}\";");
    let e = browser_config_module("/p/postcss.config.js", false, Some("x")).unwrap_err();
    assert_eq!(e, BrowserConfigError::NoRelativePath);
    assert_eq!(e.message(), "Unable to get relative path to postcss config");
    let e = browser_config_module("/p/postcss.config.js", true, None).unwrap_err();
    assert_eq!(e.message(), "PostCSS config file not found");
}

#[test]
fn worker_messages() {
    assert_eq!(
        init_message(None),
        "{\"data\":{\"config\":{\"plugins\":{\"autoprefixer\":true}}},\"type\":\"init\"}"
    );
    assert_eq!(
        init_message(Some("/p/postcss.config.js")),
        "{\"data\":{\"config\":{\"configPath\":\"/p/postcss.config.js\",\"plugins\":{\"autoprefixer\":true}}},\"type\":\"init\"}"
    );
    assert_eq!(
        transform_message("a{}\n", "src/a.css", true),
        "{\"data\":\"a{}\\n\",\"options\":{\"css\":\"a{}\\n\",\"from\":\"src/a.css\",\"map\":true,\"to\":\"src/a.out.css\"},\"type\":\"transform\"}"
    );
    assert_eq!(replace_str("a.css.css", ".css", ".out.css"), "a.out.css.out.css");
    assert_eq!(replace_str("aaa", "aa", "b"), "ba");
}

#[test]
fn worker_replies() {
    let reply = |kind: &str, error: Option<&str>| {
        Some(WorkerReply { kind: Some(kind.to_string()), error: error.map(|e| e.to_string()) })
    };
    assert!(matches!(classify_reply(WorkerPhase::Initialization, reply("init_success", None)), ReplyAction::Resolve));
    assert!(matches!(classify_reply(WorkerPhase::Initialization, reply("transform_success", None)), ReplyAction::Ignore));
    match classify_reply(WorkerPhase::Initialization, reply("init_error", None)) {
        ReplyAction::Reject(m) => assert_eq!(m, "Unknown initialization error"),
        other => panic!("unexpected {other:?}"),
    }
    match classify_reply(WorkerPhase::Transformation, reply("transform_error", Some("bad css"))) {
        ReplyAction::Reject(m) => assert_eq!(m, "bad css"),
        other => panic!("unexpected {other:?}"),
    }
    assert!(matches!(classify_reply(WorkerPhase::Transformation, None), ReplyAction::Ignore));
    assert!(matches!(
        classify_reply(WorkerPhase::Transformation, Some(WorkerReply { kind: None, error: None })),
        ReplyAction::Ignore
    ));
    let r = processing_result::<u8>(Some("a{}".to_string()), None, None).unwrap();
    assert_eq!(r.css, "a{}");
    assert_eq!(processing_result::<u8>(None, None, None).unwrap_err(), "Missing 'css' field in worker result");
}

#[test]
fn transform_starts() {
    assert!(matches!(
        start_postcss_worker(SourceFile::NotAFile, None),
        TransformStart::Fail(ref m) if m == "PostCSS Web Worker transform only supports transforming files"
    ));
    assert!(matches!(start_postcss_worker(SourceFile::Missing, None), TransformStart::NotFound));
    assert!(matches!(
        start_postcss_worker(SourceFile::Text("a{}".to_string()), None),
        TransformStart::Run { ref resource_path, .. } if resource_path == "input.css"
    ));
    assert!(matches!(start_browser_postcss(false, SourceFile::NotAFile, None), TransformStart::PassThrough));
    assert!(matches!(
        start_browser_postcss(true, SourceFile::Text("a{}".to_string()), None),
        TransformStart::Run { ref resource_path, .. } if resource_path.is_empty()
    ));
    assert!(matches!(
        start_browser_postcss(true, SourceFile::Text("a{}".to_string()), Some("src/a.css".to_string())),
        TransformStart::Run { ref resource_path, ref content } if resource_path == "src/a.css" && content == "a{}"
    ));
}

#[test]
fn webpack_loader_content_and_modules() {
    assert!(matches!(loader_content(b""), LoaderContent::Text(ref t) if t.is_empty()));
    assert!(matches!(loader_content("é".as_bytes()), LoaderContent::Text(ref t) if t == "é"));
    assert!(matches!(loader_content(&[0xff, 0x00]), LoaderContent::Binary { ref base64 } if base64 == "/wA="));
    assert_eq!(loader_resource_path(None, "/p/a.js".to_string()), "/p/a.js");
    assert_eq!(loader_resource_path(Some("a.js".to_string()), "/p/a.js".to_string()), "a.js");

    let out = process_webworker_webpack_loaders(LoaderSource::Bytes(b"x".to_vec()), "src/a-b.js", true).unwrap();
    assert_eq!(
        out.source,
        "/* WebWorker Webpack Loaders - Processed via TypeScript bridge */\n/* Resource: src/a-b.js */\n/* Loaders applied - delegated to JS runtime */\nx"
    );
    assert_eq!(
        out.map.unwrap(),
        "{\"version\":3,\"sources\":[\"src/a-b.js\"],\"mappings\":\"AAAA\",\"names\":[],\"file\":\"src_a_b.js\",\"sourceRoot\":\"\"}"
    );
    let out = process_webworker_webpack_loaders(LoaderSource::Bytes(vec![0xff]), "a.png", true).unwrap();
    assert_eq!(out.source, "module.exports = \"data:application/octet-stream;base64,/w==\";");
    assert!(out.map.is_none());
    let out = process_webworker_webpack_loaders(LoaderSource::Missing, "a.js", false).unwrap();
    assert_eq!(out.source, "module.exports = {};");
    assert_eq!(out.warnings, Some(vec!["File not found".to_string()]));
    assert_eq!(
        process_webworker_webpack_loaders(LoaderSource::NotAFile, "a.js", false).unwrap_err(),
        "WebWorker Webpack Loaders transform only support transforming files"
    );
}

#[test]
fn webpack_loaders_in_worker_start() {
    let run = execute_webpack_loaders_webworker(LoaderSource::Bytes(b"a\"b".to_vec()), Some("src/a.js".to_string()), "/p/src/a.js".to_string()).unwrap();
    match run {
        LoaderRun::Run { content: LoaderContent::Text(t), resource_path } => {
            assert_eq!(t, "a\"b");
            assert_eq!(resource_path, "src/a.js");
        }
        other => panic!("unexpected {:?}", other),
    }
    assert!(matches!(
        execute_webpack_loaders_webworker(LoaderSource::Missing, None, "/p/a.js".to_string()).unwrap(),
        LoaderRun::Empty
    ));
    assert_eq!(
        execute_webpack_loaders_webworker(LoaderSource::NotAFile, None, "/p".to_string()).unwrap_err(),
        "Webpack Loaders WebWorker transform only support transforming files"
    );
}

#[test]
fn webpack_loader_payload_json() {
    let loaders = vec![
        LoaderItem { loader: "a-loader".to_string(), options_json: "{}".to_string() },
        LoaderItem { loader: "b\"".to_string(), options_json: "{\"x\":1}".to_string() },
    ];
    let payload = loader_payload(&LoaderContent::Text("hi\n".to_string()), "src/a.js", "?q", &loaders, true, "/p");
    assert_eq!(
        payload,
        "{\"content\":\"hi\\n\",\"cwd\":\"/p\",\"loaders\":[{\"loader\":\"a-loader\",\"options\":{}},{\"loader\":\"b\\\"\",\"options\":{\"x\":1}}],\"name\":\"src/a.js\",\"query\":\"?q\",\"sourceMap\":true}"
    );
    let payload = loader_payload(&LoaderContent::Binary { base64: "/w==".to_string() }, "a.png", "", &vec![], false, "/");
    assert_eq!(
        payload,
        "{\"content\":{\"binary\":\"/w==\"},\"cwd\":\"/\",\"loaders\":[],\"name\":\"a.png\",\"query\":\"\",\"sourceMap\":false}"
    );
}

#[test]
fn processed_assets_are_renamed_or_marked() {
    assert!(matches!(processed_asset_ident(Some("b.js".to_string())), IdentChange::RenameAs(ref n) if n == "b.js"));
    assert!(matches!(processed_asset_ident(None), IdentChange::Modifier(ref m) if m == "webpack-webworker"));
}

#[test]
fn worker_replies_read_as_json() {
    assert!(matches!(on_worker_message(WorkerPhase::Initialization, "{\"type\":\"init_success\"}"), ReplyAction::Resolve));
    assert!(matches!(on_worker_message(WorkerPhase::Initialization, "not json"), ReplyAction::Ignore));
    match on_worker_message(WorkerPhase::Transformation, "{\"type\":\"transform_error\",\"error\":\"boom\"}") {
        ReplyAction::Reject(e) => assert_eq!(e, "boom"),
        other => panic!("unexpected {:?}", other),
    }
    match on_worker_message(WorkerPhase::Transformation, "{\"type\":\"transform_error\",\"error\":3}") {
        ReplyAction::Reject(e) => assert_eq!(e, "Unknown transformation error"),
        other => panic!("unexpected {:?}", other),
    }
    let r = transformation_result(
        "{\"type\":\"transform_success\",\"data\":{\"css\":\"a{}\",\"map\":7,\"assets\":[{\"file\":\"x\"},1]}}",
    )
    .unwrap();
    assert_eq!(r.css, "a{}");
    assert_eq!(r.map, None);
    assert_eq!(r.assets, Some(vec!["{\"file\":\"x\"}".to_string(), "1".to_string()]));
    assert_eq!(transformation_result("{\"data\":{}}").unwrap_err(), "Missing 'css' field in worker result");
    assert_eq!(transformation_result("{").unwrap_err(), "Failed to parse worker transformation response");
}

#[test]
fn postcss_worker_results() {
    let run = TransformStart::Run { content: "a{}".to_string(), resource_path: "a.css".to_string() };
    let done: PostCssOutput<u8> = finish_postcss_worker(
        run,
        Some(transformation_result("{\"data\":{\"css\":\"b{}\"}}")),
    )
    .unwrap();
    assert!(matches!(done.content, CssContent::File(ref c) if c == "b{}"));
    assert!(done.assets.is_empty());
    let missing: PostCssOutput<u8> = finish_postcss_worker::<u8, String>(TransformStart::NotFound, None).unwrap();
    assert!(matches!(missing.content, CssContent::NotFound));
    let failed = finish_postcss_worker::<u8, String>(
        TransformStart::Run { content: String::new(), resource_path: "a.css".to_string() },
        Some(Err("bad".to_string())),
    );
    assert_eq!(failed.unwrap_err(), "Failed to process CSS with PostCSS Web Worker: bad");
    assert_eq!(
        finish_postcss_worker::<u8, String>(TransformStart::Fail("no".to_string()), None).unwrap_err(),
        "no"
    );
}
