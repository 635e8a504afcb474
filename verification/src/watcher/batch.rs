//! A batch of deferred invalidations, collected from file-system events until the
//! file system settles.
use vstd::prelude::*;
use crate::watcher::event::{EventKind, MetadataKind, ModifyKind, RenameMode, WatchEvent, paths_view};
use crate::watcher::path::{ComponentView, WatchPath, parent_of};
use crate::watcher::path_map::{
    path_map_clear, path_map_entries, path_map_get, path_map_index_of, path_map_insert, path_map_len, path_map_new,
};
use crate::watcher::DiskWatcherRecursiveMode;
use indexmap::IndexMap;
use rustc_hash::FxBuildHasher;

verus! {

/// How one path of a batch is to be invalidated; a path may carry any combination.
#[derive(Clone, Copy, Debug, PartialEq, Eq, Structural)]
pub struct InvalidationFlags {
    /// Invalidate exactly this path in the file-content invalidators.
    pub path: bool,
    /// Invalidate exactly this path in the directory-listing invalidators.
    pub path_dir: bool,
    /// Invalidate this path and everything below it in the file-content invalidators.
    pub path_and_children: bool,
    /// Invalidate this path and everything below it in the directory-listing invalidators.
    pub path_and_children_dir: bool,
}

/// Every flag set in either.
pub open spec fn flags_union(a: InvalidationFlags, b: InvalidationFlags) -> InvalidationFlags {
    InvalidationFlags {
        path: a.path || b.path,
        path_dir: a.path_dir || b.path_dir,
        path_and_children: a.path_and_children || b.path_and_children,
        path_and_children_dir: a.path_and_children_dir || b.path_and_children_dir,
    }
}

/// Every flag of `b` is set in `a`.
pub open spec fn flags_contain(a: InvalidationFlags, b: InvalidationFlags) -> bool {
    &&& (b.path ==> a.path)
    &&& (b.path_dir ==> a.path_dir)
    &&& (b.path_and_children ==> a.path_and_children)
    &&& (b.path_and_children_dir ==> a.path_and_children_dir)
}

/// Only the exact file-content invalidation.
pub open spec fn flags_path() -> InvalidationFlags {
    InvalidationFlags { path: true, path_dir: false, path_and_children: false, path_and_children_dir: false }
}

/// Only the exact directory-listing invalidation.
pub open spec fn flags_path_dir() -> InvalidationFlags {
    InvalidationFlags { path: false, path_dir: true, path_and_children: false, path_and_children_dir: false }
}

/// Only the recursive file-content invalidation.
pub open spec fn flags_path_and_children() -> InvalidationFlags {
    InvalidationFlags { path: false, path_dir: false, path_and_children: true, path_and_children_dir: false }
}

/// Both recursive invalidations.
pub open spec fn flags_tree() -> InvalidationFlags {
    InvalidationFlags { path: false, path_dir: false, path_and_children: true, path_and_children_dir: true }
}

impl InvalidationFlags {
    /// Every flag set in `self` or in `other`.
    pub fn union(self, other: InvalidationFlags) -> (r: InvalidationFlags)
        ensures
            r == flags_union(self, other),
    {
        InvalidationFlags {
            path: self.path || other.path,
            path_dir: self.path_dir || other.path_dir,
            path_and_children: self.path_and_children || other.path_and_children,
            path_and_children_dir: self.path_and_children_dir || other.path_and_children_dir,
        }
    }

    /// Whether every flag of `other` is set in `self`.
    pub fn contains(self, other: InvalidationFlags) -> (r: bool)
        ensures
            r == flags_contain(self, other),
    {
        (!other.path || self.path) && (!other.path_dir || self.path_dir) && (!other.path_and_children
            || self.path_and_children) && (!other.path_and_children_dir || self.path_and_children_dir)
    }
}

/// What one event does to one of its paths.
#[derive(Clone, Copy, Debug, PartialEq, Eq, Structural)]
pub enum StepKind {
    /// The file's content changed.
    Content,
    /// The path was created.
    Created,
    /// The path was removed, or changed in a way that was not told apart.
    Removed,
    /// The source of a rename reported with both ends.
    RenameSource,
    /// The destination of a rename reported with both ends.
    RenameTarget,
}

/// The mathematical value of a batch.
pub struct BatchView {
    pub entries: Seq<(Seq<ComponentView>, InvalidationFlags)>,
    pub last_updated: Option<int>,
    pub new_paths: Option<Seq<int>>,
    pub polling: bool,
    pub metadata_any_is_content: bool,
}

/// The position of `p` among the entries, or the number of entries when it is not there.
pub open spec fn key_index(entries: Seq<(Seq<ComponentView>, InvalidationFlags)>, p: Seq<ComponentView>) -> int {
    if exists|i: int| 0 <= i < entries.len() && #[trigger] entries[i].0 == p {
        choose|i: int| 0 <= i < entries.len() && #[trigger] entries[i].0 == p
    } else {
        entries.len() as int
    }
}

/// Adds `f` to the flags of `p`, appending `p` when it is not there yet.
pub open spec fn mark_entries(entries: Seq<(Seq<ComponentView>, InvalidationFlags)>, p: Seq<ComponentView>, f: InvalidationFlags) -> Seq<(Seq<ComponentView>, InvalidationFlags)> {
    let i = key_index(entries, p);
    if i < entries.len() {
        entries.update(i, (p, flags_union(entries[i].1, f)))
    } else {
        entries.push((p, f))
    }
}

/// Records the entry at `i` as newly created (nothing in recursive mode).
pub open spec fn note_new_path(new_paths: Option<Seq<int>>, i: int) -> Option<Seq<int>> {
    match new_paths {
        Some(s) => if s.contains(i) { Some(s) } else { Some(s.push(i)) },
        None => None,
    }
}

/// Marks `p` with `f` in the batch, returning the batch and the position of `p`.
pub open spec fn mark_view(b: BatchView, p: Seq<ComponentView>, f: InvalidationFlags) -> (BatchView, int) {
    (BatchView { entries: mark_entries(b.entries, p, f), ..b }, key_index(b.entries, p))
}

/// Marks the parent directory of `p` for a directory-listing invalidation.
pub open spec fn mark_parent_view(b: BatchView, p: Seq<ComponentView>) -> BatchView {
    match parent_of(p) {
        Some(q) => mark_view(b, q, flags_path_dir()).0,
        None => b,
    }
}

/// What one step does to the batch.
pub open spec fn apply_step(b: BatchView, k: StepKind, p: Seq<ComponentView>) -> BatchView {
    match k {
        StepKind::Content => {
            let (b1, i) = mark_view(b, p, flags_path());
            BatchView { last_updated: Some(i), ..b1 }
        },
        StepKind::Created => {
            let (b1, i) = mark_view(mark_parent_view(b, p), p, flags_tree());
            BatchView { last_updated: Some(i), new_paths: note_new_path(b1.new_paths, i), ..b1 }
        },
        StepKind::Removed => {
            let (b1, i) = mark_view(mark_parent_view(b, p), p, flags_tree());
            BatchView { last_updated: Some(i), ..b1 }
        },
        StepKind::RenameSource => mark_view(mark_parent_view(b, p), p, flags_path_and_children()).0,
        StepKind::RenameTarget => {
            let (b1, i) = mark_view(mark_parent_view(b, p), p, flags_path_and_children());
            BatchView { last_updated: Some(i), new_paths: note_new_path(b1.new_paths, i), ..b1 }
        },
    }
}

/// Applies the steps in order.
pub open spec fn apply_steps(b: BatchView, steps: Seq<(StepKind, Seq<ComponentView>)>) -> BatchView
    decreases steps.len(),
{
    if steps.len() == 0 {
        b
    } else {
        let prev = apply_steps(b, steps.drop_last());
        apply_step(prev, steps.last().0, steps.last().1)
    }
}

/// Whether a metadata change stands for a change of the file's content: a write-time
/// change when polling, and an unspecified metadata change where the backend reports
/// content changes that way.
pub open spec fn spec_is_content_change(polling: bool, metadata_any_is_content: bool, kind: MetadataKind) -> bool {
    match kind {
        MetadataKind::WriteTime => polling,
        MetadataKind::Any => metadata_any_is_content,
        _ => false,
    }
}

/// Every path of `paths` with the same step.
pub open spec fn uniform_steps(k: StepKind, paths: Seq<Seq<ComponentView>>) -> Seq<(StepKind, Seq<ComponentView>)> {
    paths.map_values(|p: Seq<ComponentView>| (k, p))
}

/// The steps an event causes.
pub open spec fn event_steps(polling: bool, metadata_any_is_content: bool, kind: EventKind, paths: Seq<Seq<ComponentView>>) -> Seq<(StepKind, Seq<ComponentView>)> {
    match kind {
        EventKind::Modify(ModifyKind::Data) => uniform_steps(StepKind::Content, paths),
        EventKind::Modify(ModifyKind::Metadata(m)) => if spec_is_content_change(polling, metadata_any_is_content, m) {
            uniform_steps(StepKind::Content, paths)
        } else {
            Seq::empty()
        },
        EventKind::Create => uniform_steps(StepKind::Created, paths),
        EventKind::Remove | EventKind::Any | EventKind::Modify(ModifyKind::Any) => uniform_steps(StepKind::Removed, paths),
        EventKind::Modify(ModifyKind::Name(RenameMode::Both)) => seq![(StepKind::RenameSource, paths[0]), (StepKind::RenameTarget, paths[1])],
        EventKind::Modify(ModifyKind::Name(_)) => uniform_steps(StepKind::Removed, paths),
        _ => Seq::empty(),
    }
}

/// No two entries share a path.
pub open spec fn keys_distinct(entries: Seq<(Seq<ComponentView>, InvalidationFlags)>) -> bool {
    forall|i: int, j: int| 0 <= i < entries.len() && 0 <= j < entries.len() && i != j ==> #[trigger] entries[i].0 != #[trigger] entries[j].0
}

/// The batch is well formed: its paths are distinct and its positions point at entries.
pub open spec fn batch_wf(b: BatchView) -> bool {
    &&& keys_distinct(b.entries)
    &&& (b.last_updated matches Some(i) ==> 0 <= i < b.entries.len())
    &&& (b.new_paths matches Some(s) ==> (forall|k: int| 0 <= k < s.len() ==> 0 <= #[trigger] s[k] < b.entries.len())
        && s.no_duplicates())
}

/// Positions held as machine integers, read as mathematical ones.
pub open spec fn index_view(v: Seq<usize>) -> Seq<int> {
    v.map_values(|i: usize| i as int)
}

/// A set of deferred invalidations. Paths are kept once each, in the order they were
/// first marked, with the flags accumulated over the events of the batch.
pub struct BatchedInvalidations {
    paths: IndexMap<WatchPath, InvalidationFlags, FxBuildHasher>,
    last_updated_index: Option<usize>,
    /// The set of positions of newly created paths (tracked only when watching
    /// non-recursively), kept as a list that holds no position twice, in the order the
    /// positions were first added.
    new_paths: Option<Vec<usize>>,
    polling: bool,
    metadata_any_is_content: bool,
}

impl View for BatchedInvalidations {
    type V = BatchView;

    closed spec fn view(&self) -> BatchView {
        BatchView {
            entries: path_map_entries(self.paths),
            last_updated: match self.last_updated_index {
                Some(i) => Some(i as int),
                None => None,
            },
            new_paths: match self.new_paths {
                Some(v) => Some(index_view(v@)),
                None => None,
            },
            polling: self.polling,
            metadata_any_is_content: self.metadata_any_is_content,
        }
    }
}

/// The invalidations a path calls for in one of the two invalidator maps: `true` for
/// the path and everything below it, `false` for the path alone.
pub open spec fn map_plan(entries: Seq<(Seq<ComponentView>, InvalidationFlags)>, directories: bool) -> Seq<(Seq<ComponentView>, bool)>
    decreases entries.len(),
{
    if entries.len() == 0 {
        Seq::empty()
    } else {
        let rest = map_plan(entries.drop_last(), directories);
        let (p, f) = entries.last();
        let recursive = if directories { f.path_and_children_dir } else { f.path_and_children };
        let exact = if directories { f.path_dir } else { f.path };
        if recursive {
            rest.push((p, true))
        } else if exact {
            rest.push((p, false))
        } else {
            rest
        }
    }
}

/// Which invalidator map a task is for.
#[derive(Clone, Copy, Debug, PartialEq, Eq, Structural)]
pub enum InvalidatorMapKind {
    /// Invalidators of file contents.
    Files,
    /// Invalidators of directory listings.
    Directories,
}

/// One invalidation to perform.
#[derive(Debug)]
pub struct InvalidationTask {
    pub path: WatchPath,
    pub map: InvalidatorMapKind,
    /// Invalidate the path and everything below it, rather than the path alone.
    pub recursive: bool,
}

/// The views of a list of tasks.
pub open spec fn tasks_view(v: Seq<InvalidationTask>) -> Seq<(Seq<ComponentView>, InvalidatorMapKind, bool)> {
    v.map_values(|t: InvalidationTask| (t.path@, t.map, t.recursive))
}

/// A plan for one map, as tasks.
pub open spec fn plan_tasks(plan: Seq<(Seq<ComponentView>, bool)>, map: InvalidatorMapKind) -> Seq<(Seq<ComponentView>, InvalidatorMapKind, bool)> {
    plan.map_values(|t: (Seq<ComponentView>, bool)| (t.0, map, t.1))
}

/// Everything a batch invalidates: the file-content invalidators first, then the
/// directory-listing ones, each in the order of the batch.
pub open spec fn execution_plan(entries: Seq<(Seq<ComponentView>, InvalidationFlags)>) -> Seq<(Seq<ComponentView>, InvalidatorMapKind, bool)> {
    plan_tasks(map_plan(entries, false), InvalidatorMapKind::Files) + plan_tasks(map_plan(entries, true), InvalidatorMapKind::Directories)
}

/// The empty batch with the given settings.
pub open spec fn empty_batch(recursive: bool, polling: bool, metadata_any_is_content: bool) -> BatchView {
    BatchView {
        entries: Seq::empty(),
        last_updated: None,
        new_paths: if recursive { None } else { Some(Seq::empty()) },
        polling,
        metadata_any_is_content,
    }
}

/// The batch emptied, keeping its settings.
pub open spec fn cleared(b: BatchView) -> BatchView {
    BatchView {
        entries: Seq::empty(),
        last_updated: None,
        new_paths: match b.new_paths {
            Some(_) => Some(Seq::empty()),
            None => None,
        },
        ..b
    }
}

/// Marks every path with the same flags, each becoming the most recently updated.
pub open spec fn mark_all(b: BatchView, paths: Seq<Seq<ComponentView>>, f: InvalidationFlags) -> BatchView
    decreases paths.len(),
{
    if paths.len() == 0 {
        b
    } else {
        let (b1, i) = mark_view(mark_all(b, paths.drop_last(), f), paths.last(), f);
        BatchView { last_updated: Some(i), ..b1 }
    }
}

proof fn lemma_key_index_found(entries: Seq<(Seq<ComponentView>, InvalidationFlags)>, p: Seq<ComponentView>, i: int)
    requires
        keys_distinct(entries),
        0 <= i < entries.len(),
        entries[i].0 == p,
    ensures
        key_index(entries, p) == i,
{
}

proof fn lemma_key_index_absent(entries: Seq<(Seq<ComponentView>, InvalidationFlags)>, p: Seq<ComponentView>)
    requires
        forall|k: int| 0 <= k < entries.len() ==> entries[k].0 != p,
    ensures
        key_index(entries, p) == entries.len(),
{
}

/// Marking keeps the batch well formed, keeps every entry where it was with at least its
/// flags, and leaves `p` at the returned position.
pub proof fn lemma_mark_view(b: BatchView, p: Seq<ComponentView>, f: InvalidationFlags)
    requires
        batch_wf(b),
    ensures
        ({
            let (b1, i) = mark_view(b, p, f);
            &&& batch_wf(b1)
            &&& 0 <= i < b1.entries.len()
            &&& b1.entries[i].0 == p
            &&& flags_contain(b1.entries[i].1, f)
            &&& b1.entries.len() >= b.entries.len()
            &&& forall|k: int| 0 <= k < b.entries.len() ==> #[trigger] b1.entries[k].0 == b.entries[k].0
                && flags_contain(b1.entries[k].1, b.entries[k].1)
            &&& b1.last_updated == b.last_updated
            &&& b1.new_paths == b.new_paths
            &&& b1.polling == b.polling
            &&& b1.metadata_any_is_content == b.metadata_any_is_content
        }),
{
    let i = key_index(b.entries, p);
    if exists|k: int| 0 <= k < b.entries.len() && #[trigger] b.entries[k].0 == p {
        assert(0 <= i < b.entries.len() && b.entries[i].0 == p);
    } else {
        let e1 = b.entries.push((p, f));
        assert forall|x: int, y: int| 0 <= x < e1.len() && 0 <= y < e1.len() && x != y implies #[trigger] e1[x].0 != #[trigger] e1[y].0 by {
            if x < b.entries.len() && y < b.entries.len() {
            } else if x == b.entries.len() {
                assert(b.entries[y].0 != p);
            } else {
                assert(b.entries[x].0 != p);
            }
        }
    }
}

/// Marking the parent keeps the batch well formed and keeps every entry where it was
/// with at least its flags.
pub proof fn lemma_mark_parent_view(b: BatchView, p: Seq<ComponentView>)
    requires
        batch_wf(b),
    ensures
        ({
            let b1 = mark_parent_view(b, p);
            &&& batch_wf(b1)
            &&& b1.entries.len() >= b.entries.len()
            &&& forall|k: int| 0 <= k < b.entries.len() ==> #[trigger] b1.entries[k].0 == b.entries[k].0
                && flags_contain(b1.entries[k].1, b.entries[k].1)
            &&& b1.last_updated == b.last_updated
            &&& b1.new_paths == b.new_paths
            &&& b1.polling == b.polling
            &&& b1.metadata_any_is_content == b.metadata_any_is_content
        }),
{
    match parent_of(p) {
        Some(q) => lemma_mark_view(b, q, flags_path_dir()),
        None => {},
    }
}

/// One step keeps the batch well formed, keeps every entry where it was with at least its
/// flags, leaves the stepped path in the batch, and (but for the source of a rename)
/// makes it the most recently updated entry.
pub proof fn lemma_apply_step(b: BatchView, k: StepKind, p: Seq<ComponentView>)
    requires
        batch_wf(b),
    ensures
        ({
            let b1 = apply_step(b, k, p);
            &&& batch_wf(b1)
            &&& b1.entries.len() >= b.entries.len()
            &&& forall|x: int| 0 <= x < b.entries.len() ==> #[trigger] b1.entries[x].0 == b.entries[x].0
                && flags_contain(b1.entries[x].1, b.entries[x].1)
            &&& exists|x: int| 0 <= x < b1.entries.len() && #[trigger] b1.entries[x].0 == p
            &&& (!(k is RenameSource) ==> (b1.last_updated matches Some(x) && b1.entries[x].0 == p))
            &&& (k is RenameSource ==> b1.last_updated == b.last_updated)
            &&& (b.new_paths is None <==> b1.new_paths is None)
            &&& b1.polling == b.polling
            &&& b1.metadata_any_is_content == b.metadata_any_is_content
        }),
{
    let bf = apply_step(b, k, p);
    let b0 = if k is Content { b } else { mark_parent_view(b, p) };
    lemma_mark_parent_view(b, p);
    let f = match k {
        StepKind::Content => flags_path(),
        StepKind::Created | StepKind::Removed => flags_tree(),
        _ => flags_path_and_children(),
    };
    lemma_mark_view(b0, p, f);
    let (b1, i) = mark_view(b0, p, f);
    assert(bf.entries == b1.entries);
    assert(bf.entries[i].0 == p);
    assert forall|x: int| 0 <= x < b.entries.len() implies #[trigger] bf.entries[x].0 == b.entries[x].0
        && flags_contain(bf.entries[x].1, b.entries[x].1) by {
        assert(b1.entries[x].0 == b0.entries[x].0);
        assert(b0.entries[x].0 == b.entries[x].0);
    }
    if k is Created || k is RenameTarget {
        match b1.new_paths {
            Some(s) => {
                if !s.contains(i) {
                    let s1 = s.push(i);
                    assert forall|x: int| 0 <= x < s1.len() implies 0 <= #[trigger] s1[x] < b1.entries.len() by {
                        if x < s.len() {
                            assert(s[x] == s1[x]);
                        }
                    }
                    assert(s1.no_duplicates()) by {
                        assert forall|x: int, y: int| 0 <= x < s1.len() && 0 <= y < s1.len() && x != y implies s1[x] != s1[y] by {
                            if x == s.len() {
                                assert(s[y] == s1[y]);
                            } else if y == s.len() {
                                assert(s[x] == s1[x]);
                            } else {
                                assert(s[x] == s1[x] && s[y] == s1[y]);
                            }
                        }
                    }
                }
            },
            None => {},
        }
    }
    assert(batch_wf(bf));
}

/// Steps keep the batch well formed, and keep every entry where it was with at least its
/// flags.
pub proof fn lemma_apply_steps(b: BatchView, steps: Seq<(StepKind, Seq<ComponentView>)>)
    requires
        batch_wf(b),
    ensures
        ({
            let b1 = apply_steps(b, steps);
            &&& batch_wf(b1)
            &&& b1.entries.len() >= b.entries.len()
            &&& forall|x: int| 0 <= x < b.entries.len() ==> #[trigger] b1.entries[x].0 == b.entries[x].0
                && flags_contain(b1.entries[x].1, b.entries[x].1)
            &&& (b.new_paths is None <==> b1.new_paths is None)
            &&& b1.polling == b.polling
            &&& b1.metadata_any_is_content == b.metadata_any_is_content
        }),
    decreases steps.len(),
{
    if steps.len() > 0 {
        lemma_apply_steps(b, steps.drop_last());
        let prev = apply_steps(b, steps.drop_last());
        lemma_apply_step(prev, steps.last().0, steps.last().1);
    }
}

/// Adding an event (what [`BatchedInvalidations::add_event`] does) never drops or moves a
/// path of the batch and never takes a flag away from one; the paths it adds come after
/// all those already there, each once.
pub proof fn law_add_event_keeps_marked_paths(b: BatchView, kind: EventKind, paths: Seq<Seq<ComponentView>>)
    requires
        batch_wf(b),
    ensures
        ({
            let b1 = apply_steps(b, event_steps(b.polling, b.metadata_any_is_content, kind, paths));
            &&& batch_wf(b1)
            &&& b1.entries.len() >= b.entries.len()
            &&& forall|x: int| 0 <= x < b.entries.len() ==> #[trigger] b1.entries[x].0 == b.entries[x].0
                && flags_contain(b1.entries[x].1, b.entries[x].1)
            &&& forall|x: int, y: int| 0 <= y < b.entries.len() <= x < b1.entries.len()
                ==> #[trigger] b1.entries[x].0 != #[trigger] b.entries[y].0
        }),
{
    let steps = event_steps(b.polling, b.metadata_any_is_content, kind, paths);
    lemma_apply_steps(b, steps);
    let b1 = apply_steps(b, steps);
    assert forall|x: int, y: int| 0 <= y < b.entries.len() <= x < b1.entries.len()
        implies #[trigger] b1.entries[x].0 != #[trigger] b.entries[y].0 by {
        assert(b1.entries[y].0 == b.entries[y].0);
    }
}

/// The batch holds `p` with the directory-listing invalidation of exactly that path.
pub open spec fn lists_dir(b: BatchView, p: Seq<ComponentView>) -> bool {
    exists|i: int| 0 <= i < b.entries.len() && b.entries[i].0 == p && #[trigger] b.entries[i].1.path_dir
}

/// The batch holds `p` with the file-content invalidation of it and everything below it.
pub open spec fn covers_tree(b: BatchView, p: Seq<ComponentView>) -> bool {
    exists|i: int| 0 <= i < b.entries.len() && b.entries[i].0 == p && #[trigger] b.entries[i].1.path_and_children
}

/// The batch holds `p` with the directory-listing invalidation of it and everything below
/// it.
pub open spec fn covers_dir_tree(b: BatchView, p: Seq<ComponentView>) -> bool {
    exists|i: int| 0 <= i < b.entries.len() && b.entries[i].0 == p && #[trigger] b.entries[i].1.path_and_children_dir
}

/// Steps keep what the batch held, with at least its flags.
proof fn lemma_marks_persist(b: BatchView, steps: Seq<(StepKind, Seq<ComponentView>)>, p: Seq<ComponentView>)
    requires
        batch_wf(b),
    ensures
        lists_dir(b, p) ==> lists_dir(apply_steps(b, steps), p),
        covers_tree(b, p) ==> covers_tree(apply_steps(b, steps), p),
        covers_dir_tree(b, p) ==> covers_dir_tree(apply_steps(b, steps), p),
{
    lemma_apply_steps(b, steps);
    let b1 = apply_steps(b, steps);
    if lists_dir(b, p) {
        let i = choose|i: int| 0 <= i < b.entries.len() && b.entries[i].0 == p && #[trigger] b.entries[i].1.path_dir;
        assert(0 <= i < b.entries.len());
        assert(b1.entries[i].0 == b.entries[i].0);
        assert(flags_contain(b1.entries[i].1, b.entries[i].1));
        assert(b1.entries.len() >= b.entries.len());
    }
    if covers_dir_tree(b, p) {
        let i = choose|i: int| 0 <= i < b.entries.len() && b.entries[i].0 == p && #[trigger] b.entries[i].1.path_and_children_dir;
        assert(0 <= i < b.entries.len());
        assert(b1.entries[i].0 == b.entries[i].0);
        assert(flags_contain(b1.entries[i].1, b.entries[i].1));
    }
    if covers_tree(b, p) {
        let i = choose|i: int| 0 <= i < b.entries.len() && b.entries[i].0 == p && #[trigger] b.entries[i].1.path_and_children;
        assert(0 <= i < b.entries.len());
        assert(b1.entries[i].0 == b.entries[i].0);
        assert(flags_contain(b1.entries[i].1, b.entries[i].1));
        assert(b1.entries.len() >= b.entries.len());
    }
}

/// A step other than a content change covers its path's tree and lists its parent.
proof fn lemma_step_marks(b: BatchView, k: StepKind, p: Seq<ComponentView>)
    requires
        batch_wf(b),
        !(k is Content),
    ensures
        covers_tree(apply_step(b, k, p), p),
        (k is Created || k is Removed) ==> covers_dir_tree(apply_step(b, k, p), p),
        parent_of(p) matches Some(q) ==> lists_dir(apply_step(b, k, p), q),
{
    let b0 = mark_parent_view(b, p);
    lemma_mark_parent_view(b, p);
    let f = match k {
        StepKind::Created | StepKind::Removed => flags_tree(),
        _ => flags_path_and_children(),
    };
    lemma_mark_view(b0, p, f);
    let (b1, i) = mark_view(b0, p, f);
    let r = apply_step(b, k, p);
    assert(r.entries == b1.entries);
    assert(r.entries[i].0 == p && r.entries[i].1.path_and_children);
    if k is Created || k is Removed {
        assert(r.entries[i].1.path_and_children_dir);
    }
    if let Some(q) = parent_of(p) {
        lemma_mark_view(b, q, flags_path_dir());
        let (bq, iq) = mark_view(b, q, flags_path_dir());
        assert(b0 == bq);
        assert(b0.entries[iq].0 == q && b0.entries[iq].1.path_dir);
        assert(r.entries[iq].0 == q && flags_contain(r.entries[iq].1, b0.entries[iq].1));
        assert(r.entries[iq].1.path_dir);
    }
}

/// Steps run in two runs: those before `j`, then the rest.
proof fn lemma_apply_steps_split(b: BatchView, steps: Seq<(StepKind, Seq<ComponentView>)>, j: int)
    requires
        0 <= j <= steps.len(),
    ensures
        apply_steps(b, steps) == apply_steps(apply_steps(b, steps.subrange(0, j)), steps.subrange(j, steps.len() as int)),
    decreases steps.len(),
{
    if j == steps.len() {
        assert(steps.subrange(0, j) =~= steps);
        assert(steps.subrange(j, steps.len() as int) =~= Seq::<(StepKind, Seq<ComponentView>)>::empty());
    } else {
        let s1 = steps.drop_last();
        lemma_apply_steps_split(b, s1, j);
        assert(s1.subrange(0, j) =~= steps.subrange(0, j));
        let rest = steps.subrange(j, steps.len() as int);
        assert(rest.drop_last() =~= s1.subrange(j, s1.len() as int));
        assert(rest.last() == steps.last());
    }
}

/// After the steps, the path of every step other than a content change has its tree
/// covered and its parent's listing invalidated.
proof fn lemma_steps_mark(b: BatchView, steps: Seq<(StepKind, Seq<ComponentView>)>, j: int)
    requires
        batch_wf(b),
        0 <= j < steps.len(),
        !(steps[j].0 is Content),
    ensures
        covers_tree(apply_steps(b, steps), steps[j].1),
        (steps[j].0 is Created || steps[j].0 is Removed) ==> covers_dir_tree(apply_steps(b, steps), steps[j].1),
        parent_of(steps[j].1) matches Some(q) ==> lists_dir(apply_steps(b, steps), q),
{
    let before = steps.subrange(0, j);
    let upto = steps.subrange(0, j + 1);
    let rest = steps.subrange(j + 1, steps.len() as int);
    lemma_apply_steps(b, before);
    let mid = apply_steps(b, before);
    assert(upto.drop_last() =~= before);
    assert(upto.last() == steps[j]);
    lemma_step_marks(mid, steps[j].0, steps[j].1);
    lemma_apply_steps(b, upto);
    let after_j = apply_steps(b, upto);
    lemma_marks_persist(after_j, rest, steps[j].1);
    if let Some(q) = parent_of(steps[j].1) {
        lemma_marks_persist(after_j, rest, q);
    }
    lemma_apply_steps_split(b, steps, j + 1);
}

/// Law: an event that creates, removes or moves paths (what
/// [`BatchedInvalidations::add_event`] adds) invalidates the whole tree under each of its
/// paths and the listing of each path's parent directory (and, but for a rename reported with
/// both ends, the listings of the whole tree under each path); for a rename reported with
/// both ends, the source's parent is listed again as well as the destination's.
pub proof fn law_moves_invalidate_parent_listings(b: BatchView, kind: EventKind, paths: Seq<Seq<ComponentView>>)
    requires
        batch_wf(b),
        kind is Create || kind is Remove || kind is Any || kind == EventKind::Modify(ModifyKind::Any)
            || kind matches EventKind::Modify(ModifyKind::Name(_)),
        kind == EventKind::Modify(ModifyKind::Name(RenameMode::Both)) ==> paths.len() == 2,
    ensures
        forall|j: int| 0 <= j < paths.len() ==> #[trigger] covers_tree(apply_steps(b, event_steps(b.polling, b.metadata_any_is_content, kind, paths)), paths[j]),
        forall|j: int| 0 <= j < paths.len() && parent_of(#[trigger] paths[j]) is Some
            ==> lists_dir(apply_steps(b, event_steps(b.polling, b.metadata_any_is_content, kind, paths)), parent_of(paths[j])->0),
        kind != EventKind::Modify(ModifyKind::Name(RenameMode::Both)) ==> forall|j: int| 0 <= j < paths.len()
            ==> #[trigger] covers_dir_tree(apply_steps(b, event_steps(b.polling, b.metadata_any_is_content, kind, paths)), paths[j]),
{
    let steps = event_steps(b.polling, b.metadata_any_is_content, kind, paths);
    assert(steps.len() == paths.len());
    assert forall|j: int| 0 <= j < paths.len() implies steps[j].1 == paths[j] && !(steps[j].0 is Content)
        && (kind != EventKind::Modify(ModifyKind::Name(RenameMode::Both)) ==> (steps[j].0 is Created || steps[j].0 is Removed)) by {
    }
    if kind != EventKind::Modify(ModifyKind::Name(RenameMode::Both)) {
        assert forall|j: int| 0 <= j < paths.len() implies #[trigger] covers_dir_tree(apply_steps(b, steps), paths[j]) by {
            lemma_steps_mark(b, steps, j);
        }
    }
    assert forall|j: int| 0 <= j < paths.len() implies #[trigger] covers_tree(apply_steps(b, steps), paths[j]) by {
        lemma_steps_mark(b, steps, j);
    }
    assert forall|j: int| 0 <= j < paths.len() && parent_of(#[trigger] paths[j]) is Some
        implies lists_dir(apply_steps(b, steps), parent_of(paths[j])->0) by {
        lemma_steps_mark(b, steps, j);
    }
}

/// Whether `v` holds `x`.
fn holds_index(v: &Vec<usize>, x: usize) -> (r: bool)
    ensures
        r == index_view(v@).contains(x as int),
{
    let mut k: usize = 0;
    while k < v.len()
        invariant
            k <= v@.len(),
            forall|j: int| 0 <= j < k ==> index_view(v@)[j] != x as int,
        decreases v@.len() - k,
    {
        if v[k] == x {
            assert(index_view(v@)[k as int] == x as int);
            return true;
        }
        k = k + 1;
    }
    false
}

impl BatchedInvalidations {
    /// Whether the batch is well formed.
    pub open spec fn wf(&self) -> bool {
        batch_wf(self@)
    }

    /// An empty batch. `polling` tells whether events come from a polling backend;
    /// `metadata_any_is_content` whether the backend reports content changes as
    /// unspecified metadata changes. Newly created paths are tracked only when watching
    /// non-recursively.
    pub fn new(recursive_mode: DiskWatcherRecursiveMode, polling: bool, metadata_any_is_content: bool) -> (r: BatchedInvalidations)
        ensures
            r.wf(),
            r@ == empty_batch(recursive_mode == DiskWatcherRecursiveMode::Recursive, polling, metadata_any_is_content),
    {
        let r = BatchedInvalidations {
            paths: path_map_new(),
            last_updated_index: None,
            new_paths: match recursive_mode {
                DiskWatcherRecursiveMode::NonRecursive => Some(Vec::new()),
                DiskWatcherRecursiveMode::Recursive => None,
            },
            polling,
            metadata_any_is_content,
        };
        assert(r@.entries =~= Seq::<(Seq<ComponentView>, InvalidationFlags)>::empty());
        proof {
            if let Some(v) = &r.new_paths {
                assert(index_view(v@) =~= Seq::<int>::empty());
            }
        }
        r
    }

    /// Whether a metadata change of `kind` means the file's content changed.
    pub fn is_content_change(&self, kind: MetadataKind) -> (r: bool)
        ensures
            r == spec_is_content_change(self@.polling, self@.metadata_any_is_content, kind),
    {
        match kind {
            MetadataKind::WriteTime => self.polling,
            MetadataKind::Any => self.metadata_any_is_content,
            _ => false,
        }
    }

    /// Empties the batch.
    pub fn clear(&mut self)
        ensures
            final(self)@ == cleared(old(self)@),
            final(self).wf(),
    {
        path_map_clear(&mut self.paths);
        self.last_updated_index = None;
        match &mut self.new_paths {
            Some(v) => {
                *v = Vec::new();
            },
            None => {},
        }
        assert(self@.entries =~= Seq::<(Seq<ComponentView>, InvalidationFlags)>::empty());
        proof {
            if let Some(v) = &self.new_paths {
                assert(index_view(v@) =~= Seq::<int>::empty());
            }
        }
    }

    /// Records the entry at `index` as newly created; nothing in recursive mode.
    fn mark_new_path(&mut self, index: usize)
        requires
            old(self).wf(),
            index < old(self)@.entries.len(),
        ensures
            final(self)@ == (BatchView { new_paths: note_new_path(old(self)@.new_paths, index as int), ..old(self)@ }),
            final(self).wf(),
    {
        let ghost b = self@;
        proof {
            lemma_apply_step(b, StepKind::Created, b.entries[index as int].0);
        }
        match &mut self.new_paths {
            Some(v) => {
                let ghost s = index_view(v@);
                if !holds_index(v, index) {
                    v.push(index);
                    assert(index_view(v@) =~= s.push(index as int));
                }
            },
            None => {},
        }
        proof {
            let b2 = self@;
            if let Some(s2) = b2.new_paths {
                let s = b.new_paths->0;
                if !s.contains(index as int) {
                    assert(s2 == s.push(index as int));
                    assert forall|x: int| 0 <= x < s2.len() implies 0 <= #[trigger] s2[x] < b2.entries.len() by {
                        if x < s.len() {
                            assert(s[x] == s2[x]);
                        }
                    }
                    assert forall|x: int, y: int| 0 <= x < s2.len() && 0 <= y < s2.len() && x != y implies s2[x] != s2[y] by {
                        if x == s.len() {
                            assert(s[y] == s2[y]);
                        } else if y == s.len() {
                            assert(s[x] == s2[x]);
                        } else {
                            assert(s[x] == s2[x] && s[y] == s2[y]);
                        }
                    }
                }
            }
        }
    }

    /// Adds `flags` to the flags of `path`, appending it when it is new. Returns its position.
    fn mark(&mut self, path: WatchPath, flags: InvalidationFlags) -> (r: usize)
        requires
            old(self).wf(),
        ensures
            final(self)@ == mark_view(old(self)@, path@, flags).0,
            r as int == mark_view(old(self)@, path@, flags).1,
            final(self).wf(),
    {
        let ghost b = self@;
        let ghost pv = path@;
        proof {
            lemma_mark_view(b, pv, flags);
        }
        match path_map_index_of(&self.paths, &path) {
            Some(i) => {
                proof {
                    lemma_key_index_found(b.entries, pv, i as int);
                }
                let old_flags = match path_map_get(&self.paths, i) {
                    Some((_, f)) => f,
                    None => flags,
                };
                assert(old_flags == b.entries[i as int].1);
                let new_flags = old_flags.union(flags);
                let r = path_map_insert(&mut self.paths, path, new_flags);
                proof {
                    lemma_key_index_found(b.entries, pv, r as int);
                }
                assert(self@.entries =~= mark_entries(b.entries, pv, flags));
                assert(self@ == mark_view(b, pv, flags).0);
                r
            },
            None => {
                proof {
                    lemma_key_index_absent(b.entries, pv);
                }
                let r = path_map_insert(&mut self.paths, path, flags);
                assert(self@.entries =~= mark_view(b, pv, flags).0.entries);
                r
            },
        }
    }

    /// Marks the parent directory of `path` for a directory-listing invalidation.
    fn mark_parent_dir(&mut self, path: &WatchPath)
        requires
            old(self).wf(),
        ensures
            final(self)@ == mark_parent_view(old(self)@, path@),
            final(self).wf(),
    {
        match path.parent() {
            Some(parent) => {
                let flags = InvalidationFlags { path: false, path_dir: true, path_and_children: false, path_and_children_dir: false };
                self.mark(parent, flags);
            },
            None => {},
        }
    }

    /// Applies one step.
    fn step(&mut self, k: StepKind, path: WatchPath)
        requires
            old(self).wf(),
        ensures
            final(self)@ == apply_step(old(self)@, k, path@),
            final(self).wf(),
    {
        let ghost b = self@;
        proof {
            lemma_apply_step(b, k, path@);
        }
        match k {
            StepKind::Content => {
                let i = self.mark(path, InvalidationFlags { path: true, path_dir: false, path_and_children: false, path_and_children_dir: false });
                self.last_updated_index = Some(i);
            },
            StepKind::Created => {
                self.mark_parent_dir(&path);
                let i = self.mark(path, InvalidationFlags { path: false, path_dir: false, path_and_children: true, path_and_children_dir: true });
                self.mark_new_path(i);
                self.last_updated_index = Some(i);
            },
            StepKind::Removed => {
                self.mark_parent_dir(&path);
                let i = self.mark(path, InvalidationFlags { path: false, path_dir: false, path_and_children: true, path_and_children_dir: true });
                self.last_updated_index = Some(i);
            },
            StepKind::RenameSource => {
                self.mark_parent_dir(&path);
                self.mark(path, InvalidationFlags { path: false, path_dir: false, path_and_children: true, path_and_children_dir: false });
            },
            StepKind::RenameTarget => {
                self.mark_parent_dir(&path);
                let i = self.mark(path, InvalidationFlags { path: false, path_dir: false, path_and_children: true, path_and_children_dir: false });
                self.mark_new_path(i);
                self.last_updated_index = Some(i);
            },
        }
    }

    /// Applies the same step to every path, in order.
    fn step_all(&mut self, k: StepKind, paths: &Vec<WatchPath>)
        requires
            old(self).wf(),
        ensures
            final(self)@ == apply_steps(old(self)@, uniform_steps(k, paths_view(paths@))),
            final(self).wf(),
    {
        let ghost b = self@;
        let ghost all = paths_view(paths@);
        let mut i: usize = 0;
        while i < paths.len()
            invariant
                i <= paths@.len(),
                all == paths_view(paths@),
                self.wf(),
                self@ == apply_steps(b, uniform_steps(k, all.subrange(0, i as int))),
            decreases paths@.len() - i,
        {
            let ghost steps = uniform_steps(k, all.subrange(0, i + 1));
            assert(steps.drop_last() =~= uniform_steps(k, all.subrange(0, i as int)));
            assert(steps.last() == (k, paths@[i as int]@));
            self.step(k, paths[i].duplicate());
            i = i + 1;
        }
        assert(all.subrange(0, i as int) =~= all);
    }

    /// Updates the batch with the paths of `event`; performs no invalidation. Returns
    /// whether the event contained a relevant change. A rename reported with both ends
    /// must carry exactly two paths.
    pub fn add_event(&mut self, event: WatchEvent) -> (r: bool)
        requires
            old(self).wf(),
            event.kind == EventKind::Modify(ModifyKind::Name(RenameMode::Both)) ==> event.paths@.len() == 2,
        ensures
            ({
                let steps = event_steps(old(self)@.polling, old(self)@.metadata_any_is_content, event.kind, event@.1);
                &&& final(self)@ == apply_steps(old(self)@, steps)
                &&& r == (steps.len() > 0)
            }),
            final(self).wf(),
    {
        let WatchEvent { kind, paths } = event;
        let ghost all = paths_view(paths@);
        assert(uniform_steps(StepKind::Content, all).len() == paths@.len());
        assert(uniform_steps(StepKind::Created, all).len() == paths@.len());
        assert(uniform_steps(StepKind::Removed, all).len() == paths@.len());
        match kind {
            EventKind::Modify(ModifyKind::Data) => {
                assert(event_steps(self@.polling, self@.metadata_any_is_content, kind, all) == uniform_steps(StepKind::Content, all));
                assert(all == event@.1);
                let any = paths.len() > 0;
                self.step_all(StepKind::Content, &paths);
                assert(self@ == apply_steps(old(self)@, uniform_steps(StepKind::Content, all)));
                any
            },
            EventKind::Modify(ModifyKind::Metadata(m)) => {
                if self.is_content_change(m) {
                    assert(event_steps(self@.polling, self@.metadata_any_is_content, kind, all) == uniform_steps(StepKind::Content, all));
                    let any = paths.len() > 0;
                    self.step_all(StepKind::Content, &paths);
                    any
                } else {
                    assert(apply_steps(self@, Seq::empty()) == self@);
                    false
                }
            },
            EventKind::Create => {
                assert(event_steps(self@.polling, self@.metadata_any_is_content, kind, all) == uniform_steps(StepKind::Created, all));
                let any = paths.len() > 0;
                self.step_all(StepKind::Created, &paths);
                any
            },
            EventKind::Modify(ModifyKind::Name(RenameMode::Both)) => {
                let mut paths = paths;
                let destination = paths.pop().unwrap();
                let source = paths.pop().unwrap();
                assert(source@ == all[0] && destination@ == all[1]);
                let ghost b = self@;
                let ghost steps = seq![(StepKind::RenameSource, all[0]), (StepKind::RenameTarget, all[1])];
                assert(event_steps(b.polling, b.metadata_any_is_content, kind, all) == steps);
                let ghost one = steps.drop_last();
                assert(one =~= seq![(StepKind::RenameSource, all[0])]);
                assert(one.drop_last() =~= Seq::<(StepKind, Seq<ComponentView>)>::empty());
                assert(apply_steps(b, one) == apply_step(b, StepKind::RenameSource, all[0]));
                self.step(StepKind::RenameSource, source);
                self.step(StepKind::RenameTarget, destination);
                assert(self@ == apply_steps(b, steps));
                true
            },
            EventKind::Remove | EventKind::Any | EventKind::Modify(ModifyKind::Any) | EventKind::Modify(ModifyKind::Name(_)) => {
                assert(event_steps(self@.polling, self@.metadata_any_is_content, kind, all) == uniform_steps(StepKind::Removed, all));
                let any = paths.len() > 0;
                self.step_all(StepKind::Removed, &paths);
                any
            },
            _ => {
                assert(apply_steps(self@, Seq::empty()) == self@);
                false
            },
        }
    }

    /// Updates the batch for an error of the watcher: every path it names (the root when it
    /// names none) is invalidated with everything below it.
    pub fn add_error(&mut self, paths: Vec<WatchPath>, root_path: &WatchPath)
        requires
            old(self).wf(),
        ensures
            final(self)@ == (if paths@.len() == 0 {
                mark_all(old(self)@, seq![root_path@], flags_tree())
            } else {
                mark_all(old(self)@, paths_view(paths@), flags_tree())
            }),
            final(self).wf(),
    {
        let tree = InvalidationFlags { path: false, path_dir: false, path_and_children: true, path_and_children_dir: true };
        let ghost b = self@;
        if paths.len() == 0 {
            proof {
                lemma_mark_view(b, root_path@, tree);
            }
            assert(tree == flags_tree());
            let i = self.mark(root_path.duplicate(), tree);
            self.last_updated_index = Some(i);
            assert(seq![root_path@].drop_last() =~= Seq::<Seq<ComponentView>>::empty());
            assert(mark_all(b, seq![root_path@].drop_last(), tree) == b);
            return;
        }
        let ghost all = paths_view(paths@);
        let mut i: usize = 0;
        while i < paths.len()
            invariant
                i <= paths@.len(),
                all == paths_view(paths@),
                self.wf(),
                self@ == mark_all(b, all.subrange(0, i as int), tree),
            decreases paths@.len() - i,
        {
            proof {
                lemma_mark_view(self@, paths@[i as int]@, tree);
            }
            let idx = self.mark(paths[i].duplicate(), tree);
            self.last_updated_index = Some(idx);
            assert(all.subrange(0, i + 1).drop_last() =~= all.subrange(0, i as int));
            i = i + 1;
        }
        assert(all.subrange(0, i as int) =~= all);
    }

    /// How `path` is to be invalidated; `None` when the batch does not hold it.
    pub fn flags_of(&self, path: &WatchPath) -> (r: Option<InvalidationFlags>)
        requires
            self.wf(),
        ensures
            match r {
                Some(f) => key_index(self@.entries, path@) < self@.entries.len() && f == self@.entries[key_index(self@.entries, path@)].1,
                None => key_index(self@.entries, path@) == self@.entries.len(),
            },
    {
        let ghost b = self@;
        match path_map_index_of(&self.paths, path) {
            Some(i) => {
                proof {
                    lemma_key_index_found(b.entries, path@, i as int);
                }
                match path_map_get(&self.paths, i) {
                    Some((_, f)) => Some(f),
                    None => None,
                }
            },
            None => {
                proof {
                    lemma_key_index_absent(b.entries, path@);
                }
                None
            },
        }
    }

    /// The most recently updated path.
    pub fn last_updated_path(&self) -> (r: Option<&WatchPath>)
        requires
            self.wf(),
        ensures
            match self@.last_updated {
                Some(i) => r matches Some(p) && p@ == self@.entries[i].0,
                None => r is None,
            },
    {
        match self.last_updated_index {
            Some(i) => match path_map_get(&self.paths, i) {
                Some((p, _)) => Some(p),
                None => None,
            },
            None => None,
        }
    }

    /// The newly created paths of this batch, which must have their watches
    /// (re-)established before [`Self::execute`] when watching non-recursively. Always
    /// empty in recursive mode.
    pub fn new_paths(&self) -> (r: Vec<WatchPath>)
        requires
            self.wf(),
        ensures
            match self@.new_paths {
                Some(s) => paths_view(r@) == s.map_values(|i: int| self@.entries[i].0),
                None => r@.len() == 0,
            },
    {
        let mut out: Vec<WatchPath> = Vec::new();
        match &self.new_paths {
            Some(v) => {
                let ghost s = index_view(v@);
                let mut k: usize = 0;
                while k < v.len()
                    invariant
                        k <= v@.len(),
                        s == index_view(v@),
                        self.wf(),
                        self@.new_paths == Some(s),
                        paths_view(out@) == s.subrange(0, k as int).map_values(|i: int| self@.entries[i].0),
                    decreases v@.len() - k,
                {
                    let idx = v[k];
                    assert(s[k as int] == idx as int);
                    let ghost prev = out@;
                    let d = match path_map_get(&self.paths, idx) {
                        Some((p, _)) => p.duplicate(),
                        None => WatchPath::from_components(Vec::new()),
                    };
                    out.push(d);
                    assert(out@ == prev.push(d));
                    assert(paths_view(out@) =~= paths_view(prev).push(d@));
                    assert(s.subrange(0, k + 1) =~= s.subrange(0, k as int).push(s[k as int]));
                    assert(paths_view(out@) =~= s.subrange(0, k + 1).map_values(|i: int| self@.entries[i].0));
                    k = k + 1;
                }
                assert(s.subrange(0, k as int) =~= s);
            },
            None => {},
        }
        out
    }

    /// The invalidations the batch calls for, for the file-content invalidators or the
    /// directory-listing ones: a recursive invalidation subsumes the exact one.
    fn plan_for(&self, directories: bool) -> (r: Vec<(WatchPath, bool)>)
        ensures
            r@.map_values(|t: (WatchPath, bool)| (t.0@, t.1)) == map_plan(self@.entries, directories),
    {
        let ghost entries = self@.entries;
        let mut out: Vec<(WatchPath, bool)> = Vec::new();
        let n = path_map_len(&self.paths);
        let mut i: usize = 0;
        while i < n
            invariant
                i <= n,
                n == entries.len(),
                entries == self@.entries,
                entries == path_map_entries(self.paths),
                out@.map_values(|t: (WatchPath, bool)| (t.0@, t.1)) == map_plan(entries.subrange(0, i as int), directories),
            decreases n - i,
        {
            assert(entries.subrange(0, i + 1).drop_last() =~= entries.subrange(0, i as int));
            if let Some((p, f)) = path_map_get(&self.paths, i) {
                let recursive = if directories { f.path_and_children_dir } else { f.path_and_children };
                let exact = if directories { f.path_dir } else { f.path };
                if recursive {
                    out.push((p.duplicate(), true));
                } else if exact {
                    out.push((p.duplicate(), false));
                }
            }
            assert(out@.map_values(|t: (WatchPath, bool)| (t.0@, t.1)) =~= map_plan(entries.subrange(0, i + 1), directories));
            i = i + 1;
        }
        assert(entries.subrange(0, i as int) =~= entries);
        out
    }

    /// Takes every invalidation the batch calls for, then empties the batch: first those
    /// of the file-content invalidators, then those of the directory-listing ones, each in
    /// the order of the batch. For each path, invalidating it with everything below it
    /// subsumes invalidating it alone.
    pub fn execute(&mut self) -> (r: Vec<InvalidationTask>)
        requires
            old(self).wf(),
        ensures
            tasks_view(r@) == execution_plan(old(self)@.entries),
            final(self)@ == cleared(old(self)@),
            final(self).wf(),
    {
        let files = self.plan_for(false);
        let dirs = self.plan_for(true);
        let ghost fp = plan_tasks(map_plan(self@.entries, false), InvalidatorMapKind::Files);
        let ghost dp = plan_tasks(map_plan(self@.entries, true), InvalidatorMapKind::Directories);
        let mut out: Vec<InvalidationTask> = Vec::new();
        let mut files = files;
        let mut dirs = dirs;
        let mut k: usize = 0;
        let n = files.len();
        let ghost fv = files@;
        while k < n
            invariant
                n == fv.len(),
                k <= n,
                files@ == fv,
                fp == plan_tasks(fv.map_values(|t: (WatchPath, bool)| (t.0@, t.1)), InvalidatorMapKind::Files),
                tasks_view(out@) == fp.subrange(0, k as int),
            decreases n - k,
        {
            let (p, rec) = &files[k];
            assert(fp[k as int] == (fv[k as int].0@, InvalidatorMapKind::Files, fv[k as int].1));
            let ghost prev = out@;
            let t = InvalidationTask { path: p.duplicate(), map: InvalidatorMapKind::Files, recursive: *rec };
            out.push(t);
            assert(tasks_view(out@) =~= tasks_view(prev).push((t.path@, t.map, t.recursive)));
            assert(fp.subrange(0, k + 1) =~= fp.subrange(0, k as int).push(fp[k as int]));
            assert(tasks_view(out@) =~= fp.subrange(0, k + 1));
            k = k + 1;
        }
        let m = dirs.len();
        let ghost dv = dirs@;
        let mut j: usize = 0;
        while j < m
            invariant
                m == dv.len(),
                j <= m,
                dirs@ == dv,
                fp.len() == n,
                dp == plan_tasks(dv.map_values(|t: (WatchPath, bool)| (t.0@, t.1)), InvalidatorMapKind::Directories),
                tasks_view(out@) == fp + dp.subrange(0, j as int),
            decreases m - j,
        {
            let (p, rec) = &dirs[j];
            assert(dp[j as int] == (dv[j as int].0@, InvalidatorMapKind::Directories, dv[j as int].1));
            let ghost prev = out@;
            let t = InvalidationTask { path: p.duplicate(), map: InvalidatorMapKind::Directories, recursive: *rec };
            out.push(t);
            assert(tasks_view(out@) =~= tasks_view(prev).push((t.path@, t.map, t.recursive)));
            assert(dp.subrange(0, j + 1) =~= dp.subrange(0, j as int).push(dp[j as int]));
            assert(tasks_view(out@) =~= fp + dp.subrange(0, j + 1));
            j = j + 1;
        }
        assert(fp.subrange(0, n as int) =~= fp);
        assert(dp.subrange(0, m as int) =~= dp);
        self.clear();
        out
    }
}

} // verus!
