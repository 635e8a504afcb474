//! The invalidators registered for reads of the file system, by path, and the
//! invalidations a batch performs on them.
use vstd::prelude::*;
use crate::watcher::batch::{BatchedInvalidations, InvalidationTask, InvalidatorMapKind, cleared, execution_plan, tasks_view};
use crate::watcher::path::{ComponentView, WatchPath, strictly_below};

verus! {

/// The invalidators registered, each with the path whose reads it stands for, as the
/// paths and invalidator ids of the entries.
pub open spec fn registered_view(v: Seq<(WatchPath, u64)>) -> Seq<(Seq<ComponentView>, u64)> {
    v.map_values(|e: (WatchPath, u64)| (e.0@, e.1))
}

/// Whether an invalidation of `path` (with everything below it when `recursive`) reaches
/// an invalidator registered at `entry`.
pub open spec fn reaches(entry: Seq<ComponentView>, path: Seq<ComponentView>, recursive: bool) -> bool {
    entry == path || (recursive && strictly_below(entry, path))
}

/// The ids of the invalidators of `m` that an invalidation of `path` reaches, in order.
pub open spec fn reached_ids(m: Seq<(Seq<ComponentView>, u64)>, path: Seq<ComponentView>, recursive: bool) -> Seq<u64>
    decreases m.len(),
{
    if m.len() == 0 {
        Seq::empty()
    } else {
        let rest = reached_ids(m.drop_last(), path, recursive);
        if reaches(m.last().0, path, recursive) {
            rest.push(m.last().1)
        } else {
            rest
        }
    }
}

/// The invalidators of `m` that an invalidation of `path` does not reach, in order.
pub open spec fn not_reached(m: Seq<(Seq<ComponentView>, u64)>, path: Seq<ComponentView>, recursive: bool) -> Seq<(Seq<ComponentView>, u64)>
    decreases m.len(),
{
    if m.len() == 0 {
        Seq::empty()
    } else {
        let rest = not_reached(m.drop_last(), path, recursive);
        if reaches(m.last().0, path, recursive) {
            rest
        } else {
            rest.push(m.last())
        }
    }
}

/// Each id paired with the path whose invalidation called for it.
pub open spec fn calls_for(path: Seq<ComponentView>, ids: Seq<u64>) -> Seq<(Seq<ComponentView>, u64)> {
    ids.map_values(|i: u64| (path, i))
}

/// Performing `tasks` on the file and directory invalidators: the invalidators left in
/// each, and the invalidations called, in order, each with the path of the task that
/// called it. Each task takes the invalidators it reaches out of its map.
pub open spec fn perform_tasks(
    files: Seq<(Seq<ComponentView>, u64)>,
    dirs: Seq<(Seq<ComponentView>, u64)>,
    tasks: Seq<(Seq<ComponentView>, InvalidatorMapKind, bool)>,
) -> (Seq<(Seq<ComponentView>, u64)>, Seq<(Seq<ComponentView>, u64)>, Seq<(Seq<ComponentView>, u64)>)
    decreases tasks.len(),
{
    if tasks.len() == 0 {
        (files, dirs, Seq::empty())
    } else {
        let (f, d, calls) = perform_tasks(files, dirs, tasks.drop_last());
        let (p, kind, recursive) = tasks.last();
        match kind {
            InvalidatorMapKind::Files => (not_reached(f, p, recursive), d, calls + calls_for(p, reached_ids(f, p, recursive))),
            InvalidatorMapKind::Directories => (f, not_reached(d, p, recursive), calls + calls_for(p, reached_ids(d, p, recursive))),
        }
    }
}

/// Takes out of `map` the invalidators an invalidation of `path` reaches, and gives
/// their ids, in order.
fn take_reached(map: &mut Vec<(WatchPath, u64)>, path: &WatchPath, recursive: bool) -> (r: Vec<u64>)
    ensures
        r@ == reached_ids(registered_view(old(map)@), path@, recursive),
        registered_view(final(map)@) == not_reached(registered_view(old(map)@), path@, recursive),
{
    let mut all: Vec<(WatchPath, u64)> = Vec::new();
    std::mem::swap(&mut all, map);
    let ghost m = registered_view(all@);
    let mut taken: Vec<u64> = Vec::new();
    let mut i: usize = 0;
    while i < all.len()
        invariant
            i <= all@.len(),
            m == registered_view(all@),
            taken@ == reached_ids(m.subrange(0, i as int), path@, recursive),
            registered_view(map@) == not_reached(m.subrange(0, i as int), path@, recursive),
        decreases all@.len() - i,
    {
        let ghost prefix = m.subrange(0, i + 1);
        assert(prefix.drop_last() =~= m.subrange(0, i as int));
        assert(prefix.last() == (all@[i as int].0@, all@[i as int].1));
        let hit = all[i].0.same_as(path) || (recursive && all[i].0.is_strictly_below(path));
        if hit {
            taken.push(all[i].1);
        } else {
            let ghost before = map@;
            map.push((all[i].0.duplicate(), all[i].1));
            assert(registered_view(map@) =~= registered_view(before).push(prefix.last()));
        }
        i = i + 1;
    }
    assert(m.subrange(0, i as int) =~= m);
    taken
}

/// Performs the invalidation tasks of a batch (see [`BatchedInvalidations::execute`]) on
/// the invalidators of file contents and of directory listings: each task takes out of its
/// map the invalidators it reaches; gives the invalidations to call, in order, each with
/// the path of the task that called for it.
///
/// [`BatchedInvalidations::execute`]: crate::watcher::batch::BatchedInvalidations::execute
pub fn perform_invalidations(tasks: &Vec<InvalidationTask>, files: &mut Vec<(WatchPath, u64)>, dirs: &mut Vec<(WatchPath, u64)>) -> (r: Vec<(WatchPath, u64)>)
    ensures
        (registered_view(final(files)@), registered_view(final(dirs)@), registered_view(r@))
            == perform_tasks(registered_view(old(files)@), registered_view(old(dirs)@), tasks_view(tasks@)),
{
    let ghost f0 = registered_view(files@);
    let ghost d0 = registered_view(dirs@);
    let ghost tv = tasks_view(tasks@);
    let mut calls: Vec<(WatchPath, u64)> = Vec::new();
    let mut k: usize = 0;
    while k < tasks.len()
        invariant
            k <= tasks@.len(),
            tv == tasks_view(tasks@),
            (registered_view(files@), registered_view(dirs@), registered_view(calls@)) == perform_tasks(f0, d0, tv.subrange(0, k as int)),
        decreases tasks@.len() - k,
    {
        let ghost sub = tv.subrange(0, k + 1);
        assert(sub.drop_last() =~= tv.subrange(0, k as int));
        assert(sub.last() == (tasks@[k as int].path@, tasks@[k as int].map, tasks@[k as int].recursive));
        let task = &tasks[k];
        let ids = match task.map {
            InvalidatorMapKind::Files => take_reached(files, &task.path, task.recursive),
            InvalidatorMapKind::Directories => take_reached(dirs, &task.path, task.recursive),
        };
        let ghost before = registered_view(calls@);
        let mut j: usize = 0;
        while j < ids.len()
            invariant
                j <= ids@.len(),
                registered_view(calls@) == before + calls_for(task.path@, ids@.subrange(0, j as int)),
            decreases ids@.len() - j,
        {
            let ghost c = calls@;
            let d = task.path.duplicate();
            calls.push((d, ids[j]));
            assert(registered_view(calls@) =~= registered_view(c).push((task.path@, ids@[j as int])));
            assert(calls_for(task.path@, ids@.subrange(0, j + 1)) =~= calls_for(task.path@, ids@.subrange(0, j as int)).push((task.path@, ids@[j as int])));
            assert(registered_view(calls@) =~= before + calls_for(task.path@, ids@.subrange(0, j + 1)));
            j = j + 1;
        }
        assert(ids@.subrange(0, j as int) =~= ids@);
        k = k + 1;
    }
    assert(tv.subrange(0, k as int) =~= tv);
    calls
}

/// Performs every invalidation `batch` calls for on the invalidators of file contents and
/// of directory listings, then empties the batch: first the file-content invalidators, then
/// the directory-listing ones, each in the order of the batch; for a path with everything
/// below it, the invalidators at the path or below are taken out, otherwise those at the
/// path alone. Gives the invalidations to call, each with the path of the batch that called
/// for it, in order.
pub fn invalidate_batch(batch: &mut BatchedInvalidations, files: &mut Vec<(WatchPath, u64)>, dirs: &mut Vec<(WatchPath, u64)>) -> (r: Vec<(WatchPath, u64)>)
    requires
        old(batch).wf(),
    ensures
        final(batch).wf(),
        final(batch)@ == cleared(old(batch)@),
        (registered_view(final(files)@), registered_view(final(dirs)@), registered_view(r@))
            == perform_tasks(registered_view(old(files)@), registered_view(old(dirs)@), execution_plan(old(batch)@.entries)),
{
    let tasks = batch.execute();
    perform_invalidations(&tasks, files, dirs)
}

} // verus!
