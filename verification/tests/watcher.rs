use turbopack_support::watcher::invalidators::invalidate_batch;
use turbopack_support::watcher::batch::{BatchedInvalidations, InvalidationFlags, InvalidatorMapKind};
use turbopack_support::watcher::disk_watcher::{
    ComponentNameMatcher, DiskWatcher, DiskWatcherPathMatcher, InvalidateRescan, NoPathMatcher, StartInvalidation,
};
use turbopack_support::watcher::event::{EventKind, ModifyKind, RenameMode, WatchEvent};
use turbopack_support::watcher::path::WatchPath;
use turbopack_support::watcher::watch_loop::{WatchAction, WatchInput};
use turbopack_support::watcher::watched::{EnsureWatched, WatchedDirs};
use turbopack_support::watcher::{
    DiskWatcherConfig, DiskWatcherRecursiveMode, ForcedWatchMode, WatchPlatform, parse_forced_watch_mode,
};

fn platform() -> WatchPlatform {
    WatchPlatform { forced_mode: None, has_efficient_recursive_watcher: true, metadata_any_is_content: false }
}

fn watcher_ignoring(entries: &[&str]) -> DiskWatcher {
    DiskWatcher::new_with_ignored_paths(
        DiskWatcherConfig::default(),
        entries.iter().map(|e| e.to_string()).collect(),
        platform(),
    )
}

fn rename_both(a: &str, b: &str) -> WatchEvent {
    WatchEvent {
        kind: EventKind::Modify(ModifyKind::Name(RenameMode::Both)),
        paths: vec![WatchPath::new(a), WatchPath::new(b)],
    }
}

#[test]
fn filters_rename_events_without_breaking_both_invariant() {
    let watcher = watcher_ignoring(&["node_modules"]);
    let visible_path = WatchPath::new("project/src/old.js");

    let event = rename_both("project/src/old.js", "project/node_modules/pkg/new.js");
    let event = watcher.filter_event(event).unwrap();
    assert_eq!(event.paths.len(), 1);
    assert!(event.paths[0].same_as(&visible_path));
    assert!(matches!(event.kind, EventKind::Modify(ModifyKind::Name(RenameMode::Any))));

    let mut batch = BatchedInvalidations::new(DiskWatcherRecursiveMode::Recursive, false, false);
    assert!(batch.add_event(event));
    let flags = batch.flags_of(&visible_path).unwrap();
    assert!(flags.path_and_children);
    assert!(flags.path_and_children_dir);

    let event = rename_both("project/src/old.js", "project/src/new.js");
    let event = watcher.filter_event(event).unwrap();
    assert!(matches!(event.kind, EventKind::Modify(ModifyKind::Name(RenameMode::Both))));

    let event = rename_both("project/node_modules/pkg/new.js", "project/node_modules/pkg/new.js/nested");
    assert!(watcher.filter_event(event).is_none());
}

#[test]
fn watches_matching_node_modules_packages() {
    let watcher = watcher_ignoring(&[
        "node_modules",
        "!node_modules/rc-.*",
        "!node_modules/.*cssinjs.*",
        "!node_modules/@rc-component/.*",
    ]);
    for path in [
        "project/node_modules/rc-util/index.js",
        "project/node_modules/@ant-design/cssinjs/index.js",
        "project/node_modules/@rc-component/trigger/index.js",
        "project/node_modules/.pnpm/rc-util@5.0.0/node_modules/rc-util/index.js",
    ] {
        assert!(!watcher.should_ignore_path(&WatchPath::new(path)));
    }
}

#[test]
fn ignores_non_matching_node_modules_packages() {
    let watcher = watcher_ignoring(&["node_modules", "!node_modules/rc-.*"]);
    assert!(watcher.should_ignore_path(&WatchPath::new("project/node_modules/react/index.js")));
    assert!(watcher.should_ignore_path(&WatchPath::new("project/node_modules/rc-util/node_modules/react/index.js")));
    assert!(watcher.should_ignore_path(&WatchPath::new("project/node_modules/rc-util/node_modules/@scope")));
    assert!(!watcher.should_ignore_path(&WatchPath::new("project/src/index.js")));
}

#[test]
fn ignores_invalid_node_modules_regexes() {
    let watcher = watcher_ignoring(&["node_modules", "!node_modules/["]);
    assert!(watcher.should_ignore_path(&WatchPath::new("project/node_modules/rc-util/index.js")));
}

#[test]
fn data_change_marks_path_and_is_flushed_on_timeout() {
    let watcher = watcher_ignoring(&[]);
    let mut batch = watcher.new_batch();
    let root = WatchPath::new("project");
    let event = WatchEvent { kind: EventKind::Modify(ModifyKind::Data), paths: vec![WatchPath::new("project/a.txt")] };
    let action = watcher.watch_step::<NoPathMatcher>(&mut batch, None, &root, WatchInput::Event { event, need_rescan: false });
    assert!(matches!(action, WatchAction::Extend(10)));
    let flags = batch.flags_of(&WatchPath::new("project/a.txt")).unwrap();
    assert!(flags.path);
    assert!(!flags.path_and_children);
    match watcher.watch_step::<NoPathMatcher>(&mut batch, None, &root, WatchInput::Timeout) {
        WatchAction::Flush { restore, tasks } => {
            assert!(restore.is_empty());
            assert_eq!(tasks.len(), 1);
            assert!(tasks[0].path.same_as(&WatchPath::new("project/a.txt")));
            assert!(matches!(tasks[0].map, InvalidatorMapKind::Files));
            assert!(!tasks[0].recursive);
        },
        other => panic!("unexpected action {other:?}"),
    }
    assert!(batch.flags_of(&WatchPath::new("project/a.txt")).is_none());
}


#[test]
fn matcher_extends_batch_delay() {
    let watcher = watcher_ignoring(&[]);
    let mut batch = watcher.new_batch();
    let root = WatchPath::new("project");
    let event = WatchEvent { kind: EventKind::Create, paths: vec![WatchPath::new("project/node_modules/x")] };
    let action = watcher.watch_step(&mut batch, Some(&ComponentNameMatcher { name: "node_modules".to_string() }), &root, WatchInput::Event { event, need_rescan: false });
    assert!(matches!(action, WatchAction::Extend(200)));
}

#[test]
fn ignored_event_leaves_batch_untouched() {
    let watcher = watcher_ignoring(&["node_modules"]);
    let mut batch = watcher.new_batch();
    let root = WatchPath::new("project");
    let event = WatchEvent { kind: EventKind::Create, paths: vec![WatchPath::new("project/node_modules/x")] };
    let action = watcher.watch_step::<NoPathMatcher>(&mut batch, None, &root, WatchInput::Event { event, need_rescan: false });
    assert!(matches!(action, WatchAction::Wait));
    assert!(batch.flags_of(&WatchPath::new("project/node_modules/x")).is_none());
}

#[test]
fn rescan_clears_batch_and_disconnect_stops() {
    let watcher = watcher_ignoring(&[]);
    let mut batch = watcher.new_batch();
    let root = WatchPath::new("project");
    let event = WatchEvent { kind: EventKind::Modify(ModifyKind::Data), paths: vec![WatchPath::new("project/a.txt")] };
    watcher.watch_step::<NoPathMatcher>(&mut batch, None, &root, WatchInput::Event { event, need_rescan: false });
    let event = WatchEvent { kind: EventKind::Any, paths: vec![] };
    let action = watcher.watch_step::<NoPathMatcher>(&mut batch, None, &root, WatchInput::Event { event, need_rescan: true });
    assert!(matches!(action, WatchAction::Rescan(ref dirs) if dirs.is_empty()));
    assert!(batch.flags_of(&WatchPath::new("project/a.txt")).is_none());
    let action = watcher.watch_step::<NoPathMatcher>(&mut batch, None, &root, WatchInput::Disconnected);
    assert!(matches!(action, WatchAction::Stop));
}

#[test]
fn watcher_error_invalidates_root_tree() {
    let watcher = watcher_ignoring(&[]);
    let mut batch = watcher.new_batch();
    let root = WatchPath::new("project");
    let action = watcher.watch_step::<NoPathMatcher>(&mut batch, None, &root, WatchInput::Error(vec![]));
    assert!(matches!(action, WatchAction::Extend(10)));
    let flags = batch.flags_of(&root).unwrap();
    assert!(flags.path_and_children && flags.path_and_children_dir);
    assert!(!flags.path && !flags.path_dir);
}

#[test]
fn component_name_matcher() {
    let m = ComponentNameMatcher { name: "node_modules".to_string() };
    assert!(m.match_path(&WatchPath::new("/p/node_modules/x")));
    assert!(!m.match_path(&WatchPath::new("/p/node_modules_x/y")));
    assert!(!NoPathMatcher.match_path(&WatchPath::new("/p")));
}

#[test]
fn flags_union_and_contains() {
    let a = InvalidationFlags { path: true, path_dir: false, path_and_children: false, path_and_children_dir: false };
    let b = InvalidationFlags { path: false, path_dir: true, path_and_children: false, path_and_children_dir: false };
    let u = a.union(b);
    assert!(u.contains(a) && u.contains(b));
    assert!(!a.contains(u));
}

#[test]
fn forced_watch_mode_parsing() {
    assert!(matches!(parse_forced_watch_mode(None), ForcedWatchMode::Unset));
    assert!(matches!(
        parse_forced_watch_mode(Some("recursive")),
        ForcedWatchMode::Mode(DiskWatcherRecursiveMode::Recursive)
    ));
    assert!(matches!(
        parse_forced_watch_mode(Some("nonrecursive")),
        ForcedWatchMode::Mode(DiskWatcherRecursiveMode::NonRecursive)
    ));
    assert!(matches!(parse_forced_watch_mode(Some("both")), ForcedWatchMode::Unsupported));
}

#[test]
fn watched_dirs_watch_missing_parents_first() {
    let mut dirs = WatchedDirs::new();
    let root = WatchPath::new("/project");
    match dirs.ensure_watched(&WatchPath::new("/project/a/b"), &root) {
        EnsureWatched::Watch(plan) => {
            assert_eq!(plan.len(), 2);
            assert!(plan[0].same_as(&WatchPath::new("/project/a")));
            assert!(plan[1].same_as(&WatchPath::new("/project/a/b")));
        },
        other => panic!("unexpected plan {other:?}"),
    }
    assert!(matches!(dirs.ensure_watched(&root, &root), EnsureWatched::Root));
}

#[test]
fn rescan_invalidation_texts() {
    let rescan = InvalidateRescan { path: "/project/a.txt".to_string() };
    assert_eq!(rescan.message(), "/project/a.txt in filesystem invalidated");
    assert_eq!(
        rescan.summary(12),
        "12 items in filesystem invalidated due to notify::Watcher rescan event (/project/a.txt, ...)"
    );
}

#[test]
fn decoding_an_encoded_watcher_rebuilds_it() {
    let watcher = watcher_ignoring(&["node_modules", "!node_modules/rc-.*"]);
    let (config, entries) = watcher.encode();
    assert_eq!(config, DiskWatcherConfig::default());
    assert_eq!(entries, vec!["node_modules".to_string(), "!node_modules/rc-.*".to_string()]);
    let decoded = DiskWatcher::decode(config, entries, platform());
    assert_eq!(decoded.recursive_mode(), watcher.recursive_mode());
    assert!(!decoded.is_watching());
    for path in ["p/node_modules/react/a.js", "p/node_modules/rc-util/a.js", "p/src/a.js"] {
        let p = WatchPath::new(path);
        assert_eq!(decoded.should_ignore_path(&p), watcher.should_ignore_path(&p));
    }
}

#[test]
fn batch_keeps_each_path_once_in_first_marked_order() {
    let mut batch = BatchedInvalidations::new(DiskWatcherRecursiveMode::NonRecursive, false, false);
    let data = |p: &str| WatchEvent { kind: EventKind::Modify(ModifyKind::Data), paths: vec![WatchPath::new(p)] };
    assert!(batch.add_event(data("p/b.txt")));
    assert!(batch.add_event(WatchEvent { kind: EventKind::Create, paths: vec![WatchPath::new("p/a")] }));
    assert!(batch.add_event(data("p/b.txt")));
    assert!(batch.add_event(WatchEvent { kind: EventKind::Remove, paths: vec![WatchPath::new("p/b.txt")] }));
    let b = batch.flags_of(&WatchPath::new("p/b.txt")).unwrap();
    assert!(b.path && b.path_and_children && b.path_and_children_dir && !b.path_dir);
    assert!(batch.last_updated_path().unwrap().same_as(&WatchPath::new("p/b.txt")));
    let created = batch.new_paths();
    assert_eq!(created.len(), 1);
    assert!(created[0].same_as(&WatchPath::new("p/a")));
    let tasks = batch.execute();
    let files: Vec<(String, bool)> = tasks
        .iter()
        .filter(|t| matches!(t.map, InvalidatorMapKind::Files))
        .map(|t| (t.path.normal_names().join("/"), t.recursive))
        .collect();
    assert_eq!(files, vec![("p/b.txt".to_string(), true), ("p/a".to_string(), true)]);
    let dirs: Vec<(String, bool)> = tasks
        .iter()
        .filter(|t| matches!(t.map, InvalidatorMapKind::Directories))
        .map(|t| (t.path.normal_names().join("/"), t.recursive))
        .collect();
    assert_eq!(dirs, vec![("p/b.txt".to_string(), true), ("p".to_string(), false), ("p/a".to_string(), true)]);
    assert!(batch.new_paths().is_empty());
}

#[test]
fn start_invalidation_carries_reasons_only_when_reported() {
    let quiet = watcher_ignoring(&[]);
    assert!(matches!(quiet.start_invalidation("project"), StartInvalidation::All));
    let mut config = DiskWatcherConfig::default();
    config.report_invalidation_reason = true;
    let loud = DiskWatcher::new(config, platform());
    assert!(matches!(
        loud.start_invalidation("project"),
        StartInvalidation::AllWithWatchStartReasons { ref name } if name == "project"
    ));
}

#[test]
fn batch_invalidations_take_reached_invalidators() {
    let mut batch = BatchedInvalidations::new(DiskWatcherRecursiveMode::Recursive, false, false);
    assert!(batch.add_event(WatchEvent { kind: EventKind::Create, paths: vec![WatchPath::new("p/a")] }));
    let mut files = vec![(WatchPath::new("p/a/x"), 1), (WatchPath::new("p/b"), 2), (WatchPath::new("p/a"), 3)];
    let mut dirs = vec![(WatchPath::new("p"), 4), (WatchPath::new("p/a"), 5), (WatchPath::new("q"), 6)];
    let calls = invalidate_batch(&mut batch, &mut files, &mut dirs);
    let calls: Vec<(String, u64)> = calls.iter().map(|(p, i)| (p.normal_names().join("/"), *i)).collect();
    assert_eq!(
        calls,
        vec![("p/a".to_string(), 1), ("p/a".to_string(), 3), ("p".to_string(), 4), ("p/a".to_string(), 5)]
    );
    assert_eq!(files.len(), 1);
    assert_eq!(files[0].1, 2);
    assert_eq!(dirs.len(), 1);
    assert_eq!(dirs[0].1, 6);
    assert!(batch.flags_of(&WatchPath::new("p/a")).is_none());
}

#[test]
fn watched_dirs_are_kept_in_path_order() {
    let mut dirs = WatchedDirs::new();
    for d in ["/p/b", "/p/a/z", "/p/a", "/p/c", "/p/b"] {
        dirs.record_watched(&WatchPath::new(d));
    }
    let all: Vec<String> = dirs.all().iter().map(|p| p.normal_names().join("/")).collect();
    assert_eq!(all, vec!["p/a", "p/a/z", "p/b", "p/c"]);
    let below: Vec<String> = dirs.children(&WatchPath::new("/p/a")).iter().map(|p| p.normal_names().join("/")).collect();
    assert_eq!(below, vec!["p/a/z"]);
}
