//! The decisions of the watch thread: what each thing it receives does to the batch of
//! invalidations, and what the thread does next.
use vstd::prelude::*;
use crate::watcher::batch::{
    BatchedInvalidations, InvalidationTask, apply_steps, cleared, event_steps, execution_plan, flags_tree, mark_all,
    tasks_view,
};
use crate::watcher::disk_watcher::{DiskWatcher, DiskWatcherPathMatcher, spec_event_delay};
use crate::watcher::event::{WatchEvent, filtered_kind, paths_view, visible_paths};
use crate::watcher::path::{ComponentView, WatchPath};
use crate::watcher::watched::children_of;
use crate::watcher::DiskWatcherRecursiveMode;

verus! {

/// What the watch thread received.
#[derive(Debug)]
pub enum WatchInput {
    /// An event of the backend; `need_rescan` when the backend lost events and everything
    /// must be looked at again.
    Event { event: WatchEvent, need_rescan: bool },
    /// An error of the backend about these paths.
    Error(Vec<WatchPath>),
    /// The batch stayed open for its whole delay without a new event.
    Timeout,
    /// The file system is gone.
    Disconnected,
}

/// What the watch thread does next.
#[derive(Debug)]
pub enum WatchAction {
    /// Keep waiting, with the batch open as long as before.
    Wait,
    /// Keep the batch open this many more milliseconds.
    Extend(u64),
    /// Drop the queued events, watch these directories again, invalidate everything and
    /// restart the batch delay; the batch has been emptied.
    Rescan(Vec<WatchPath>),
    /// Watch these directories again, then perform these invalidations; the batch has been
    /// emptied.
    Flush { restore: Vec<WatchPath>, tasks: Vec<InvalidationTask> },
    /// Stop the thread.
    Stop,
}

/// What to watch again when `dir` shows up anew, as [`DiskWatcher::restore_if_watched`]
/// says.
pub open spec fn spec_restore_plan(one_by_one: bool, watched: Seq<Seq<ComponentView>>, dir: Seq<ComponentView>, root: Seq<ComponentView>) -> Seq<Seq<ComponentView>> {
    if !one_by_one || dir == root || !watched.contains(dir) {
        Seq::empty()
    } else {
        seq![dir] + children_of(watched, dir)
    }
}

/// What to watch again when each of `dirs` shows up anew, in order.
pub open spec fn spec_restore_plans(one_by_one: bool, watched: Seq<Seq<ComponentView>>, dirs: Seq<Seq<ComponentView>>, root: Seq<ComponentView>) -> Seq<Seq<ComponentView>>
    decreases dirs.len(),
{
    if dirs.len() == 0 {
        Seq::empty()
    } else {
        spec_restore_plans(one_by_one, watched, dirs.drop_last(), root) + spec_restore_plan(one_by_one, watched, dirs.last(), root)
    }
}

impl DiskWatcher {
    /// The watcher watches directories one by one.
    pub open spec fn one_by_one(&self) -> bool {
        self.watching() && self.mode() == DiskWatcherRecursiveMode::NonRecursive
    }

    /// What to watch again for every newly created path of `batch`, in order.
    fn restore_new_paths(&self, batch: &BatchedInvalidations, root_path: &WatchPath) -> (r: Vec<WatchPath>)
        requires
            batch.wf(),
        ensures
            paths_view(r@) == match batch@.new_paths {
                Some(s) => spec_restore_plans(self.one_by_one(), self.watched_dirs(), s.map_values(|i: int| batch@.entries[i].0), root_path@),
                None => Seq::empty(),
            },
    {
        let created = batch.new_paths();
        let ghost dirs = paths_view(created@);
        let mut out: Vec<WatchPath> = Vec::new();
        let mut i: usize = 0;
        assert(paths_view(out@) =~= Seq::<Seq<ComponentView>>::empty());
        while i < created.len()
            invariant
                i <= created@.len(),
                dirs == paths_view(created@),
                paths_view(out@) == spec_restore_plans(self.one_by_one(), self.watched_dirs(), dirs.subrange(0, i as int), root_path@),
            decreases created@.len() - i,
        {
            let plan = self.restore_if_watched(&created[i], root_path);
            let ghost before = paths_view(out@);
            let mut plan = plan;
            let mut k: usize = 0;
            let ghost pv = paths_view(plan@);
            let n = plan.len();
            while plan.len() > 0
                invariant
                    n == pv.len(),
                    k + plan@.len() == pv.len(),
                    paths_view(plan@) == pv.subrange(k as int, pv.len() as int),
                    paths_view(out@) == before + pv.subrange(0, k as int),
                decreases plan@.len(),
            {
                let ghost rest = plan@;
                let p = plan.remove(0);
                proof {
                    assert(paths_view(rest)[0] == p@);
                    assert(pv.subrange(k as int, pv.len() as int)[0] == pv[k as int]);
                    assert(paths_view(plan@) =~= pv.subrange(k + 1, pv.len() as int)) by {
                        assert forall|j: int| 0 <= j < plan@.len() implies #[trigger] paths_view(plan@)[j] == pv.subrange(k + 1, pv.len() as int)[j] by {
                            assert(plan@[j] == rest[j + 1]);
                            assert(paths_view(rest)[j + 1] == pv.subrange(k as int, pv.len() as int)[j + 1]);
                        }
                    }
                }
                let ghost o = out@;
                out.push(p);
                proof {
                    assert(paths_view(out@) =~= paths_view(o).push(pv[k as int]));
                    assert(pv.subrange(0, k + 1) =~= pv.subrange(0, k as int).push(pv[k as int]));
                }
                k = k + 1;
            }
            proof {
                assert(pv.subrange(0, k as int) =~= pv);
                assert(dirs.subrange(0, i + 1).drop_last() =~= dirs.subrange(0, i as int));
                assert(dirs.subrange(0, i + 1).last() == created@[i as int]@);
            }
            i = i + 1;
        }
        assert(dirs.subrange(0, i as int) =~= dirs);
        out
    }

    /// One step of the watch thread, which collects events into `batch` until the file
    /// system settles: a lost-events notice empties the batch and calls for a full
    /// rescan, re-watching every directory watched one by one; an event has its ignored
    /// paths removed and, when it changes the batch, keeps the batch open for its delay;
    /// an error invalidates its paths (the root when it names none) with everything below
    /// them and keeps the batch open; the end of the delay flushes the batch, first
    /// re-watching what was created; a disconnection stops the thread.
    pub fn watch_step<M: DiskWatcherPathMatcher>(&self, batch: &mut BatchedInvalidations, matcher: Option<&M>, root_path: &WatchPath, input: WatchInput) -> (r: WatchAction)
        requires
            old(batch).wf(),
        ensures
            final(batch).wf(),
            match input {
                WatchInput::Disconnected => r is Stop && final(batch)@ == old(batch)@,
                WatchInput::Timeout => r matches WatchAction::Flush { restore, tasks }
                    && paths_view(restore@) == (match old(batch)@.new_paths {
                        Some(s) => spec_restore_plans(self.one_by_one(), self.watched_dirs(), s.map_values(|i: int| old(batch)@.entries[i].0), root_path@),
                        None => Seq::empty(),
                    })
                    && tasks_view(tasks@) == execution_plan(old(batch)@.entries)
                    && final(batch)@ == cleared(old(batch)@),
                WatchInput::Error(paths) => r == WatchAction::Extend(self.config().batch_delay_ms)
                    && final(batch)@ == (if paths@.len() == 0 {
                        mark_all(old(batch)@, seq![root_path@], flags_tree())
                    } else {
                        mark_all(old(batch)@, paths_view(paths@), flags_tree())
                    }),
                WatchInput::Event { event, need_rescan } => if need_rescan {
                    r matches WatchAction::Rescan(restore) && paths_view(restore@) == self.watched_dirs()
                        && final(batch)@ == cleared(old(batch)@)
                } else {
                    let visible = visible_paths(event@.1, self.ignored_names(), self.patterns());
                    let steps = event_steps(old(batch)@.polling, old(batch)@.metadata_any_is_content, filtered_kind(event.kind, visible.len()), visible);
                    if visible.len() == 0 {
                        r is Wait && final(batch)@ == old(batch)@
                    } else {
                        final(batch)@ == apply_steps(old(batch)@, steps)
                            && r == (if steps.len() > 0 {
                                WatchAction::Extend(spec_event_delay(self.config(), matcher, visible))
                            } else {
                                WatchAction::Wait
                            })
                    }
                },
            },
    {
        match input {
            WatchInput::Disconnected => WatchAction::Stop,
            WatchInput::Timeout => {
                let restore = self.restore_new_paths(batch, root_path);
                let tasks = batch.execute();
                WatchAction::Flush { restore, tasks }
            },
            WatchInput::Error(paths) => {
                batch.add_error(paths, root_path);
                WatchAction::Extend(self.get_config().batch_delay_ms)
            },
            WatchInput::Event { event, need_rescan } => {
                if need_rescan {
                    batch.clear();
                    return WatchAction::Rescan(self.restore_all_watched());
                }
                match self.filter_event(event) {
                    None => WatchAction::Wait,
                    Some(kept) => {
                        let delay = self.event_delay(matcher, &kept);
                        if batch.add_event(kept) {
                            WatchAction::Extend(delay)
                        } else {
                            WatchAction::Wait
                        }
                    },
                }
            },
        }
    }
}

} // verus!
