//! The watcher of one file-system root: its settings, its ignore rules and its state.
use vstd::prelude::*;
use vstd::string::StringExecFns;
use vstd::string::StrSliceExecFns;
use crate::regex_support::{PatternSet, regex_set_builds, string_views};
use crate::text::{decimal_digits, decimal_string, seq_starts_with, str_starts_with};
use crate::watcher::batch::{BatchedInvalidations, empty_batch};
use crate::watcher::event::{WatchEvent, filter_event_paths, filtered_kind, visible_paths};
use crate::watcher::ignore::{ignores_path, optional_patterns, should_ignore_path};
use crate::watcher::path::{ComponentView, WatchPath, parent_of};
use crate::watcher::watched::{EnsureWatched, WatchedDirs, ancestors_to_watch, children_of, sorted_insert};
use crate::watcher::{DiskWatcherConfig, DiskWatcherRecursiveMode, WatchPlatform, resolved_mode};

verus! {

/// Matches paths reported by the watcher; a match keeps the current batch open for the
/// extended delay.
pub trait DiskWatcherPathMatcher {
    /// Whether the matcher matches `path`.
    spec fn spec_match_path(&self, path: Seq<ComponentView>) -> bool;

    /// Called once per path of every incoming event: must be cheap and must not block.
    fn match_path(&self, path: &WatchPath) -> (r: bool)
        ensures
            r == self.spec_match_path(path@),
    ;
}

/// Matches the paths that go through a directory named `name` (such as the target of a
/// package-manager install).
#[derive(Debug)]
pub struct ComponentNameMatcher {
    pub name: String,
}

impl DiskWatcherPathMatcher for ComponentNameMatcher {
    open spec fn spec_match_path(&self, path: Seq<ComponentView>) -> bool {
        crate::watcher::path::normal_names(path).contains(self.name@)
    }

    fn match_path(&self, path: &WatchPath) -> (r: bool) {
        let names = path.normal_names();
        let ghost views = names@.map_values(|s: String| s@);
        let mut i: usize = 0;
        while i < names.len()
            invariant
                i <= names@.len(),
                views == names@.map_values(|s: String| s@),
                views == crate::watcher::path::normal_names(path@),
                forall|k: int| 0 <= k < i ==> views[k] != self.name@,
            decreases names@.len() - i,
        {
            if crate::text::str_equal(names[i].as_str(), self.name.as_str()) {
                assert(views[i as int] == self.name@);
                return true;
            }
            i = i + 1;
        }
        false
    }
}

/// Matches no path.
#[derive(Debug)]
pub struct NoPathMatcher;

impl DiskWatcherPathMatcher for NoPathMatcher {
    open spec fn spec_match_path(&self, path: Seq<ComponentView>) -> bool {
        false
    }

    fn match_path(&self, path: &WatchPath) -> (r: bool) {
        false
    }
}

/// The state of a watcher that watches whole trees.
#[derive(Clone, Copy, Debug, PartialEq, Eq, Structural)]
pub enum RecursiveState {
    Stopped,
    Watching,
}

/// The state of a watcher that watches directories one by one.
pub enum NonRecursiveState {
    Stopped,
    Watching(WatchedDirs),
}

/// The state of a watcher, by how it watches.
pub enum WatcherState {
    Recursive(RecursiveState),
    NonRecursive(NonRecursiveState),
}

/// The prefix that marks an ignore entry as a package pattern opting packages back in.
pub open spec fn package_pattern_prefix() -> Seq<char> {
    "!node_modules/"@
}

/// The ignored component names among the ignore entries, in order.
pub open spec fn plain_ignored(entries: Seq<Seq<char>>) -> Seq<Seq<char>>
    decreases entries.len(),
{
    if entries.len() == 0 {
        entries
    } else {
        let rest = plain_ignored(entries.drop_last());
        if seq_starts_with(entries.last(), package_pattern_prefix()) {
            rest
        } else {
            rest.push(entries.last())
        }
    }
}

/// The package patterns among the ignore entries, without their prefix, in order.
pub open spec fn package_patterns(entries: Seq<Seq<char>>) -> Seq<Seq<char>>
    decreases entries.len(),
{
    if entries.len() == 0 {
        entries
    } else {
        let rest = package_patterns(entries.drop_last());
        if seq_starts_with(entries.last(), package_pattern_prefix()) {
            rest.push(entries.last().subrange(package_pattern_prefix().len() as int, entries.last().len() as int))
        } else {
            rest
        }
    }
}

/// The compiled package patterns a watcher holds: none when there are no patterns or
/// when they do not compile, otherwise exactly these patterns.
pub open spec fn compiled_patterns(entries: Seq<Seq<char>>) -> Option<Seq<Seq<char>>> {
    let p = package_patterns(entries);
    if p.len() == 0 || !regex_set_builds(p) {
        None
    } else {
        Some(p)
    }
}

/// The watcher of one file-system root. A decoded watcher is always stopped; its compiled
/// patterns are rebuilt from the ignore entries it was created with.
pub struct DiskWatcher {
    state: WatcherState,
    config: DiskWatcherConfig,
    platform: WatchPlatform,
    ignored_path_config: Vec<String>,
    ignored_paths: Vec<String>,
    node_modules_regexes: Option<PatternSet>,
}

/// Whether the delay of a batch is extended for an event: some of its paths match.
pub open spec fn any_path_matches<M: DiskWatcherPathMatcher>(matcher: &M, paths: Seq<Seq<ComponentView>>) -> bool {
    exists|i: int| 0 <= i < paths.len() && matcher.spec_match_path(#[trigger] paths[i])
}

/// How long the batch stays open after an event: the batch delay, or the extended delay
/// when it is longer and the matcher matches a path of the event.
pub open spec fn spec_event_delay<M: DiskWatcherPathMatcher>(config: DiskWatcherConfig, matcher: Option<&M>, paths: Seq<Seq<ComponentView>>) -> u64 {
    match matcher {
        Some(m) => if any_path_matches(m, paths) && config.extended_batch_delay_duration_ms > config.batch_delay_ms {
            config.extended_batch_delay_duration_ms
        } else {
            config.batch_delay_ms
        },
        None => config.batch_delay_ms,
    }
}

/// Whether `matcher` matches some path of `paths`.
fn any_path_matched<M: DiskWatcherPathMatcher>(matcher: &M, paths: &Vec<WatchPath>) -> (r: bool)
    ensures
        r == any_path_matches(matcher, crate::watcher::event::paths_view(paths@)),
{
    let mut i: usize = 0;
    while i < paths.len()
        invariant
            i <= paths@.len(),
            forall|k: int| 0 <= k < i ==> !matcher.spec_match_path(#[trigger] paths@[k]@),
        decreases paths@.len() - i,
    {
        if matcher.match_path(&paths[i]) {
            assert(crate::watcher::event::paths_view(paths@)[i as int] == paths@[i as int]@);
            return true;
        }
        i = i + 1;
    }
    assert forall|k: int| 0 <= k < paths@.len() implies !matcher.spec_match_path(#[trigger] crate::watcher::event::paths_view(paths@)[k]) by {
        assert(crate::watcher::event::paths_view(paths@)[k] == paths@[k]@);
    }
    false
}

impl DiskWatcher {
    /// The settings of this watcher.
    pub closed spec fn config(&self) -> DiskWatcherConfig {
        self.config
    }

    /// The platform facts this watcher was created with.
    pub closed spec fn platform(&self) -> WatchPlatform {
        self.platform
    }

    /// The ignore entries this watcher was created with.
    pub closed spec fn ignored_path_config(&self) -> Seq<Seq<char>> {
        string_views(self.ignored_path_config@)
    }

    /// The ignored component names.
    pub closed spec fn ignored_names(&self) -> Seq<Seq<char>> {
        string_views(self.ignored_paths@)
    }

    /// The compiled package patterns, if any.
    pub closed spec fn patterns(&self) -> Option<Seq<Seq<char>>> {
        match &self.node_modules_regexes {
            Some(s) => Some(s.patterns()),
            None => None,
        }
    }

    /// How this watcher watches.
    pub closed spec fn mode(&self) -> DiskWatcherRecursiveMode {
        match self.state {
            WatcherState::Recursive(_) => DiskWatcherRecursiveMode::Recursive,
            WatcherState::NonRecursive(_) => DiskWatcherRecursiveMode::NonRecursive,
        }
    }

    /// Whether this watcher is watching.
    pub closed spec fn watching(&self) -> bool {
        match self.state {
            WatcherState::Recursive(s) => s is Watching,
            WatcherState::NonRecursive(s) => s is Watching,
        }
    }

    /// The directories watched one by one (empty unless watching non-recursively).
    pub closed spec fn watched_dirs(&self) -> Seq<Seq<ComponentView>> {
        match &self.state {
            WatcherState::NonRecursive(NonRecursiveState::Watching(w)) => w@,
            _ => Seq::empty(),
        }
    }

    /// The watcher is well formed: its ignored names and package patterns are those of its
    /// ignore entries, its mode is the one its settings resolve to on its platform, its
    /// extended batch delay is at least its batch delay, and the directories it watches one
    /// by one hold no directory twice.
    pub closed spec fn wf(&self) -> bool {
        &&& self.ignored_names() == plain_ignored(self.ignored_path_config())
        &&& self.patterns() == compiled_patterns(self.ignored_path_config())
        &&& self.mode() == resolved_mode(self.config, self.platform)
        &&& self.config.extended_batch_delay_duration_ms >= self.config.batch_delay_ms
        &&& match &self.state {
            WatcherState::NonRecursive(NonRecursiveState::Watching(w)) => w.wf(),
            _ => true,
        }
    }

    /// A stopped watcher with no ignored paths.
    pub fn new(config: DiskWatcherConfig, platform: WatchPlatform) -> (r: DiskWatcher)
        requires
            config.extended_batch_delay_duration_ms >= config.batch_delay_ms,
        ensures
            r.wf(),
            r.config() == config,
            r.platform() == platform,
            r.ignored_path_config() == Seq::<Seq<char>>::empty(),
            r.ignored_names() == Seq::<Seq<char>>::empty(),
            r.patterns() is None,
            r.mode() == resolved_mode(config, platform),
            !r.watching(),
    {
        let r = Self::new_with_ignored_paths(config, Vec::new(), platform);
        assert(string_views(Seq::<String>::empty()) =~= Seq::<Seq<char>>::empty());
        r
    }

    /// A stopped watcher with the given ignore entries: an entry `!node_modules/<pattern>`
    /// is a package pattern that opts matching packages back in; any other entry is a
    /// component name to ignore. The extended batch delay must be at least the batch delay.
    pub fn new_with_ignored_paths(config: DiskWatcherConfig, ignored_paths: Vec<String>, platform: WatchPlatform) -> (r: DiskWatcher)
        requires
            config.extended_batch_delay_duration_ms >= config.batch_delay_ms,
        ensures
            r.wf(),
            r.config() == config,
            r.platform() == platform,
            r.ignored_path_config() == string_views(ignored_paths@),
            r.ignored_names() == plain_ignored(string_views(ignored_paths@)),
            r.patterns() == compiled_patterns(string_views(ignored_paths@)),
            r.mode() == resolved_mode(config, platform),
            !r.watching(),
    {
        let ghost entries = string_views(ignored_paths@);
        let mut paths: Vec<String> = Vec::new();
        let mut patterns: Vec<String> = Vec::new();
        let prefix_len = "!node_modules/".unicode_len();
        let mut i: usize = 0;
        while i < ignored_paths.len()
            invariant
                i <= ignored_paths@.len(),
                entries == string_views(ignored_paths@),
                prefix_len == package_pattern_prefix().len(),
                string_views(paths@) == plain_ignored(entries.subrange(0, i as int)),
                string_views(patterns@) == package_patterns(entries.subrange(0, i as int)),
            decreases ignored_paths@.len() - i,
        {
            let entry = &ignored_paths[i];
            assert(entries.subrange(0, i + 1).drop_last() =~= entries.subrange(0, i as int));
            assert(entries.subrange(0, i + 1).last() == entry@);
            if str_starts_with(entry.as_str(), "!node_modules/") {
                let n = entry.as_str().unicode_len();
                let pattern = entry.as_str().substring_char(prefix_len, n).to_owned();
                let ghost prev = patterns@;
                patterns.push(pattern);
                assert(string_views(patterns@) =~= string_views(prev).push(pattern@));
            } else {
                let ghost prev = paths@;
                paths.push(entry.clone());
                assert(string_views(paths@) =~= string_views(prev).push(entry@));
            }
            i = i + 1;
        }
        assert(entries.subrange(0, i as int) =~= entries);
        let node_modules_regexes = if patterns.len() == 0 {
            None
        } else {
            PatternSet::compile(patterns)
        };
        let mode = config.resolve_recursive_mode(&platform);
        let state = match mode {
            DiskWatcherRecursiveMode::Recursive => WatcherState::Recursive(RecursiveState::Stopped),
            DiskWatcherRecursiveMode::NonRecursive => WatcherState::NonRecursive(NonRecursiveState::Stopped),
        };
        DiskWatcher {
            state,
            config,
            platform,
            ignored_path_config: ignored_paths,
            ignored_paths: paths,
            node_modules_regexes,
        }
    }

    /// What is persisted of a watcher: its settings and its ignore entries.
    pub fn encode(&self) -> (r: (DiskWatcherConfig, Vec<String>))
        ensures
            r.0 == self.config(),
            string_views(r.1@) == self.ignored_path_config(),
    {
        (self.config, self.ignored_path_config.clone())
    }

    /// Rebuilds a watcher from what was persisted: it is stopped, and its compiled package
    /// patterns are rebuilt from the ignore entries.
    pub fn decode(config: DiskWatcherConfig, ignored_paths: Vec<String>, platform: WatchPlatform) -> (r: DiskWatcher)
        requires
            config.extended_batch_delay_duration_ms >= config.batch_delay_ms,
        ensures
            r.wf(),
            r.config() == config,
            r.platform() == platform,
            r.ignored_path_config() == string_views(ignored_paths@),
            r.ignored_names() == plain_ignored(string_views(ignored_paths@)),
            r.patterns() == compiled_patterns(string_views(ignored_paths@)),
            r.mode() == resolved_mode(config, platform),
            !r.watching(),
    {
        Self::new_with_ignored_paths(config, ignored_paths, platform)
    }

    /// The settings of this watcher.
    pub fn get_config(&self) -> (r: DiskWatcherConfig)
        ensures
            r == self.config(),
    {
        self.config
    }

    /// How this watcher watches.
    pub fn recursive_mode(&self) -> (r: DiskWatcherRecursiveMode)
        ensures
            r == self.mode(),
    {
        match &self.state {
            WatcherState::Recursive(_) => DiskWatcherRecursiveMode::Recursive,
            WatcherState::NonRecursive(_) => DiskWatcherRecursiveMode::NonRecursive,
        }
    }

    /// Whether this watcher is watching.
    pub fn is_watching(&self) -> (r: bool)
        ensures
            r == self.watching(),
    {
        match &self.state {
            WatcherState::Recursive(s) => match s {
                RecursiveState::Watching => true,
                RecursiveState::Stopped => false,
            },
            WatcherState::NonRecursive(s) => match s {
                NonRecursiveState::Watching(_) => true,
                NonRecursiveState::Stopped => false,
            },
        }
    }

    /// Whether the watcher should ignore `path`.
    pub fn should_ignore_path(&self, path: &WatchPath) -> (r: bool)
        ensures
            r == ignores_path(path@, self.ignored_names(), self.patterns()),
    {
        let regexes = match &self.node_modules_regexes {
            Some(s) => Some(s),
            None => None,
        };
        should_ignore_path(path, &self.ignored_paths, regexes)
    }

    /// Removes the ignored paths from `event`, as `filter_event_paths` does.
    pub fn filter_event(&self, event: WatchEvent) -> (r: Option<WatchEvent>)
        ensures
            ({
                let visible = visible_paths(event@.1, self.ignored_names(), self.patterns());
                &&& r is None <==> visible.len() == 0
                &&& r matches Some(e) ==> e@ == (filtered_kind(event.kind, visible.len()), visible)
            }),
    {
        let regexes = match &self.node_modules_regexes {
            Some(s) => Some(s),
            None => None,
        };
        filter_event_paths(event, &self.ignored_paths, regexes)
    }

    /// An empty batch for this watcher's events.
    pub fn new_batch(&self) -> (r: BatchedInvalidations)
        ensures
            r.wf(),
            r@ == empty_batch(self.mode() == DiskWatcherRecursiveMode::Recursive, self.config().poll_interval_ms is Some, self.platform().metadata_any_is_content),
    {
        BatchedInvalidations::new(self.recursive_mode(), self.config.poll_interval_ms.is_some(), self.platform.metadata_any_is_content)
    }

    /// How long the batch stays open after `event`.
    pub fn event_delay<M: DiskWatcherPathMatcher>(&self, matcher: Option<&M>, event: &WatchEvent) -> (r: u64)
        ensures
            r == spec_event_delay(self.config(), matcher, event@.1),
    {
        let base = self.config.batch_delay_ms;
        match matcher {
            None => base,
            Some(m) => {
                let matched = any_path_matched(m, &event.paths);
                let extended = self.config.extended_batch_delay_duration_ms;
                if matched && extended > base {
                    extended
                } else {
                    base
                }
            },
        }
    }

    /// Whether watching still has to be set up: `false` when the watcher already watches.
    pub fn needs_start(&self) -> (r: bool)
        ensures
            r == !self.watching(),
    {
        !self.is_watching()
    }

    /// How starting to watch invalidates what was read before it: everything, each path
    /// with a watch-start reason naming the file system `fs_name` when the watcher
    /// reports invalidation reasons, without a reason otherwise.
    pub fn start_invalidation(&self, fs_name: &str) -> (r: StartInvalidation)
        ensures
            self.config().report_invalidation_reason ==> (r matches StartInvalidation::AllWithWatchStartReasons { name }
                && name@ == fs_name@),
            !self.config().report_invalidation_reason ==> r is All,
    {
        if self.config.report_invalidation_reason {
            StartInvalidation::AllWithWatchStartReasons { name: fs_name.to_owned() }
        } else {
            StartInvalidation::All
        }
    }

    /// What starting to watch does: nothing when the watcher already watches; otherwise
    /// watch the root with the watcher's mode, invalidate what was read before as
    /// [`Self::start_invalidation`] says, and then record that watching is set up
    /// ([`Self::mark_watching`]).
    pub fn start_plan(&self, fs_name: &str) -> (r: StartPlan)
        ensures
            self.watching() ==> r is AlreadyWatching,
            !self.watching() ==> (r matches StartPlan::Start { mode, invalidation } && mode == self.mode()
                && (self.config().report_invalidation_reason ==> (invalidation matches StartInvalidation::AllWithWatchStartReasons { name }
                    && name@ == fs_name@))
                && (!self.config().report_invalidation_reason ==> invalidation is All)),
    {
        if !self.needs_start() {
            return StartPlan::AlreadyWatching;
        }
        StartPlan::Start { mode: self.recursive_mode(), invalidation: self.start_invalidation(fs_name) }
    }

    /// Records that watching has been set up; nothing is watched one by one yet.
    pub fn mark_watching(&mut self)
        requires
            old(self).wf(),
        ensures
            final(self).wf(),
            final(self).watching(),
            final(self).watched_dirs() == Seq::<Seq<ComponentView>>::empty(),
            final(self).mode() == old(self).mode(),
            final(self).config() == old(self).config(),
            final(self).platform() == old(self).platform(),
            final(self).ignored_path_config() == old(self).ignored_path_config(),
            final(self).ignored_names() == old(self).ignored_names(),
            final(self).patterns() == old(self).patterns(),
    {
        match &self.state {
            WatcherState::Recursive(_) => {
                self.state = WatcherState::Recursive(RecursiveState::Watching);
            },
            WatcherState::NonRecursive(_) => {
                self.state = WatcherState::NonRecursive(NonRecursiveState::Watching(WatchedDirs::new()));
            },
        }
    }

    /// Stops watching; the directories watched one by one are forgotten.
    pub fn stop_watching(&mut self)
        requires
            old(self).wf(),
        ensures
            final(self).wf(),
            !final(self).watching(),
            final(self).watched_dirs() == Seq::<Seq<ComponentView>>::empty(),
            final(self).mode() == old(self).mode(),
            final(self).config() == old(self).config(),
            final(self).platform() == old(self).platform(),
            final(self).ignored_path_config() == old(self).ignored_path_config(),
            final(self).ignored_names() == old(self).ignored_names(),
            final(self).patterns() == old(self).patterns(),
    {
        match &self.state {
            WatcherState::Recursive(_) => {
                self.state = WatcherState::Recursive(RecursiveState::Stopped);
            },
            WatcherState::NonRecursive(_) => {
                self.state = WatcherState::NonRecursive(NonRecursiveState::Stopped);
            },
        }
    }

    /// Makes sure `dir_path` and its parents up to `root_path` are watched when watching
    /// directories one by one: tells what to watch, having recorded `dir_path`. Nothing
    /// to do when watching whole trees or when not watching.
    pub fn ensure_watched_dir(&mut self, dir_path: &WatchPath, root_path: &WatchPath) -> (r: Option<EnsureWatched>)
        requires
            old(self).wf(),
        ensures
            final(self).wf(),
            final(self).watching() == old(self).watching(),
            final(self).mode() == old(self).mode(),
            final(self).config() == old(self).config(),
            final(self).ignored_names() == old(self).ignored_names(),
            final(self).patterns() == old(self).patterns(),
            !(old(self).watching() && old(self).mode() == DiskWatcherRecursiveMode::NonRecursive) ==> (r is None && final(self).watched_dirs() == old(self).watched_dirs()),
            old(self).watching() && old(self).mode() == DiskWatcherRecursiveMode::NonRecursive ==> {
                let w = old(self).watched_dirs();
                &&& r is Some
                &&& dir_path@ == root_path@ ==> (r->0 is Root && final(self).watched_dirs() == w)
                &&& dir_path@ != root_path@ && w.contains(dir_path@) ==> (r->0 is AlreadyWatched && final(self).watched_dirs() == w)
                &&& dir_path@ != root_path@ && !w.contains(dir_path@) ==> {
                    let (chain, found) = ancestors_to_watch(dir_path@, root_path@, sorted_insert(w, dir_path@));
                    &&& final(self).watched_dirs() == sorted_insert(w, dir_path@)
                    &&& (found ==> (r->0 matches EnsureWatched::Watch(plan) && crate::watcher::event::paths_view(plan@) == (seq![dir_path@] + chain).reverse()))
                    &&& (!found ==> r->0 is MissingRoot)
                }
            },
    {
        match &mut self.state {
            WatcherState::NonRecursive(NonRecursiveState::Watching(w)) => Some(w.ensure_watched(dir_path, root_path)),
            _ => None,
        }
    }

    /// Makes sure the directory of the file `path` is watched, as [`Self::ensure_watched_dir`]
    /// does for that directory; nothing for a path without a parent.
    pub fn ensure_watched_file(&mut self, path: &WatchPath, root_path: &WatchPath) -> (r: Option<EnsureWatched>)
        requires
            old(self).wf(),
        ensures
            final(self).wf(),
            final(self).watching() == old(self).watching(),
            final(self).mode() == old(self).mode(),
            final(self).config() == old(self).config(),
            parent_of(path@) is None ==> (r is None && final(self).watched_dirs() == old(self).watched_dirs()),
            !(old(self).watching() && old(self).mode() == DiskWatcherRecursiveMode::NonRecursive) ==> (r is None && final(self).watched_dirs() == old(self).watched_dirs()),
            parent_of(path@) matches Some(d) ==> (old(self).watching() && old(self).mode() == DiskWatcherRecursiveMode::NonRecursive
                && !old(self).watched_dirs().contains(d) && d != root_path@ ==> final(self).watched_dirs() == sorted_insert(old(self).watched_dirs(), d)),
    {
        match &mut self.state {
            WatcherState::NonRecursive(NonRecursiveState::Watching(w)) => {
                match path.parent() {
                    Some(dir) => Some(w.ensure_watched(&dir, root_path)),
                    None => None,
                }
            },
            _ => None,
        }
    }

    /// Records that `dir_path` is now watched (when watching directories one by one).
    pub fn record_watched(&mut self, dir_path: &WatchPath)
        requires
            old(self).wf(),
        ensures
            final(self).wf(),
            final(self).watching() == old(self).watching(),
            final(self).mode() == old(self).mode(),
            final(self).config() == old(self).config(),
            old(self).watching() && old(self).mode() == DiskWatcherRecursiveMode::NonRecursive && !old(self).watched_dirs().contains(dir_path@)
                ==> final(self).watched_dirs() == sorted_insert(old(self).watched_dirs(), dir_path@),
            !(old(self).watching() && old(self).mode() == DiskWatcherRecursiveMode::NonRecursive && !old(self).watched_dirs().contains(dir_path@))
                ==> final(self).watched_dirs() == old(self).watched_dirs(),
    {
        match &mut self.state {
            WatcherState::NonRecursive(NonRecursiveState::Watching(w)) => {
                w.record_watched(dir_path);
            },
            _ => {},
        }
    }

    /// What to watch again when `dir_path` shows up anew: nothing unless watching
    /// directories one by one and `dir_path` was watched before; then `dir_path` and the
    /// watched directories below it. The root is never restored.
    pub fn restore_if_watched(&self, dir_path: &WatchPath, root_path: &WatchPath) -> (r: Vec<WatchPath>)
        ensures
            crate::watcher::event::paths_view(r@) == if !(self.watching() && self.mode() == DiskWatcherRecursiveMode::NonRecursive)
                || dir_path@ == root_path@ || !self.watched_dirs().contains(dir_path@) {
                Seq::empty()
            } else {
                seq![dir_path@] + children_of(self.watched_dirs(), dir_path@)
            },
    {
        match &self.state {
            WatcherState::NonRecursive(NonRecursiveState::Watching(w)) => w.restore_plan(dir_path, root_path),
            _ => {
                let r: Vec<WatchPath> = Vec::new();
                assert(crate::watcher::event::paths_view(r@) =~= Seq::<Seq<ComponentView>>::empty());
                r
            },
        }
    }

    /// Every directory to watch again after a rescan: all the directories watched one by one.
    pub fn restore_all_watched(&self) -> (r: Vec<WatchPath>)
        ensures
            crate::watcher::event::paths_view(r@) == self.watched_dirs(),
    {
        match &self.state {
            WatcherState::NonRecursive(NonRecursiveState::Watching(w)) => w.all(),
            _ => {
                let r: Vec<WatchPath> = Vec::new();
                assert(crate::watcher::event::paths_view(r@) =~= Seq::<Seq<ComponentView>>::empty());
                r
            },
        }
    }
}

/// What starting to watch does.
#[derive(Debug)]
pub enum StartPlan {
    /// The watcher already watches: nothing is done.
    AlreadyWatching,
    /// Watch the root in `mode`, then invalidate as `invalidation` says.
    Start { mode: DiskWatcherRecursiveMode, invalidation: StartInvalidation },
}

/// How starting to watch invalidates what was read before it.
#[derive(Debug)]
pub enum StartInvalidation {
    /// Invalidate everything, with no reason attached.
    All,
    /// Invalidate everything, each path with a watch-start reason that names the file
    /// system `name` and the path.
    AllWithWatchStartReasons { name: String },
}

/// What is persisted of a watcher rebuilds it: the settings and ignore entries that
/// [`DiskWatcher::encode`] gives back meet the demand of [`DiskWatcher::decode`], which, on
/// the same platform, gives a watcher with the same ignored names, package patterns and
/// watch mode.
pub proof fn law_decode_rebuilds_encoded(w: DiskWatcher)
    requires
        w.wf(),
    ensures
        w.config().extended_batch_delay_duration_ms >= w.config().batch_delay_ms,
        plain_ignored(w.ignored_path_config()) == w.ignored_names(),
        compiled_patterns(w.ignored_path_config()) == w.patterns(),
        resolved_mode(w.config(), w.platform()) == w.mode(),
{
}

/// A watcher decoded from what another encoded (the same ignore entries, see
/// [`DiskWatcher::encode`] and [`DiskWatcher::decode`]) ignores exactly the paths the other
/// ignores, whatever state either is in.
pub proof fn law_decoded_watcher_ignores_the_same(w: DiskWatcher, decoded: DiskWatcher)
    requires
        w.wf(),
        decoded.wf(),
        decoded.ignored_path_config() == w.ignored_path_config(),
    ensures
        forall|p: Seq<ComponentView>| #[trigger] ignores_path(p, decoded.ignored_names(), decoded.patterns())
            == ignores_path(p, w.ignored_names(), w.patterns()),
{
}

/// The text of an invalidation caused by a rescan.
pub open spec fn rescan_message(path: Seq<char>) -> Seq<char> {
    path + " in filesystem invalidated"@
}

/// The summary of `count` invalidations caused by a rescan, the first for `first_path`.
pub open spec fn rescan_summary(count: nat, first_path: Seq<char>) -> Seq<char> {
    decimal_digits(count) + " items in filesystem invalidated due to notify::Watcher rescan event ("@
        + first_path + ", ...)"@
}

/// An invalidation caused by a rescan of the watched tree; it likely invalidates every
/// watched file.
#[derive(Clone, Debug, PartialEq, Eq, Hash)]
pub struct InvalidateRescan {
    pub path: String,
}

impl InvalidateRescan {
    /// The text of this invalidation.
    pub fn message(&self) -> (r: String)
        ensures
            r@ == rescan_message(self.path@),
    {
        let mut r = self.path.clone();
        r.append(" in filesystem invalidated");
        r
    }

    /// The summary of `count` such invalidations, this one being the first.
    pub fn summary(&self, count: usize) -> (r: String)
        ensures
            r@ == rescan_summary(count as nat, self.path@),
    {
        let mut r = decimal_string(count);
        r.append(" items in filesystem invalidated due to notify::Watcher rescan event (");
        r.append(self.path.as_str());
        r.append(", ...)");
        r
    }
}

} // verus!
