//! File-system events, as the notification backend reports them.
use vstd::prelude::*;
use crate::regex_support::{PatternSet, string_views};
use crate::watcher::ignore::{ignores_path, optional_patterns, should_ignore_path};
use crate::watcher::path::{ComponentView, WatchPath};

verus! {

/// Which metadata of a file changed.
#[derive(Clone, Copy, Debug, PartialEq, Eq, Structural)]
pub enum MetadataKind {
    Any,
    AccessTime,
    WriteTime,
    Permissions,
    Ownership,
    Extended,
    Other,
}

/// How a rename was reported.
#[derive(Clone, Copy, Debug, PartialEq, Eq, Structural)]
pub enum RenameMode {
    Any,
    To,
    From,
    Both,
    Other,
}

/// What kind of modification happened.
#[derive(Clone, Copy, Debug, PartialEq, Eq, Structural)]
pub enum ModifyKind {
    Any,
    Data,
    Metadata(MetadataKind),
    Name(RenameMode),
    Other,
}

/// What happened to the paths of an event.
#[derive(Clone, Copy, Debug, PartialEq, Eq, Structural)]
pub enum EventKind {
    Any,
    Access,
    Create,
    Modify(ModifyKind),
    Remove,
    Other,
}

/// A file-system event: what happened, and to which paths.
#[derive(Debug)]
pub struct WatchEvent {
    pub kind: EventKind,
    pub paths: Vec<WatchPath>,
}

/// The views of a list of paths.
pub open spec fn paths_view(paths: Seq<WatchPath>) -> Seq<Seq<ComponentView>> {
    paths.map_values(|p: WatchPath| p@)
}

impl View for WatchEvent {
    type V = (EventKind, Seq<Seq<ComponentView>>);

    open spec fn view(&self) -> (EventKind, Seq<Seq<ComponentView>>) {
        (self.kind, paths_view(self.paths@))
    }
}

/// The paths that the watcher does not ignore, in order.
pub open spec fn visible_paths(paths: Seq<Seq<ComponentView>>, ignored: Seq<Seq<char>>, patterns: Option<Seq<Seq<char>>>) -> Seq<Seq<ComponentView>>
    decreases paths.len(),
{
    if paths.len() == 0 {
        paths
    } else {
        let rest = visible_paths(paths.drop_last(), ignored, patterns);
        if ignores_path(paths.last(), ignored, patterns) {
            rest
        } else {
            rest.push(paths.last())
        }
    }
}

/// A rename reported with both of its ends.
pub open spec fn is_rename_both(kind: EventKind) -> bool {
    kind == EventKind::Modify(ModifyKind::Name(RenameMode::Both))
}

/// The kind an event keeps once its ignored paths are gone: a rename reported with both
/// ends becomes an unmatched rename unless exactly two paths remain.
pub open spec fn filtered_kind(kind: EventKind, remaining: nat) -> EventKind {
    if is_rename_both(kind) && remaining != 2 {
        EventKind::Modify(ModifyKind::Name(RenameMode::Any))
    } else {
        kind
    }
}

/// Filtering never breaks the rule that a rename reported with both ends carries exactly
/// two paths: an event that still says so after filtering kept exactly two paths.
pub proof fn law_filter_keeps_rename_pairs(kind: EventKind, remaining: nat)
    ensures
        is_rename_both(filtered_kind(kind, remaining)) ==> remaining == 2,
        !is_rename_both(kind) ==> filtered_kind(kind, remaining) == kind,
{
}

/// Removes the ignored paths from `event`. `None` when no path is left; a rename with both
/// ends that crossed an ignored boundary becomes an unmatched rename, so that every rename
/// reported with both ends still carries exactly two paths.
pub fn filter_event_paths(event: WatchEvent, ignored_paths: &Vec<String>, node_modules_regexes: Option<&PatternSet>) -> (r: Option<WatchEvent>)
    ensures
        ({
            let visible = visible_paths(event@.1, string_views(ignored_paths@), optional_patterns(node_modules_regexes));
            &&& r is None <==> visible.len() == 0
            &&& r matches Some(e) ==> e@ == (filtered_kind(event.kind, visible.len()), visible)
        }),
{
    let ghost ignored = string_views(ignored_paths@);
    let ghost patterns = optional_patterns(node_modules_regexes);
    let ghost all = event@.1;
    let WatchEvent { kind, paths } = event;
    let mut kept: Vec<WatchPath> = Vec::new();
    let mut i: usize = 0;
    while i < paths.len()
        invariant
            i <= paths@.len(),
            all == paths_view(paths@),
            ignored == string_views(ignored_paths@),
            patterns == optional_patterns(node_modules_regexes),
            paths_view(kept@) == visible_paths(all.subrange(0, i as int), ignored, patterns),
        decreases paths@.len() - i,
    {
        assert(all.subrange(0, i + 1).drop_last() =~= all.subrange(0, i as int));
        assert(all.subrange(0, i + 1).last() == paths@[i as int]@);
        let ignore = should_ignore_path(&paths[i], ignored_paths, node_modules_regexes);
        if !ignore {
            let p = paths[i].duplicate();
            kept.push(p);
            assert(paths_view(kept@) =~= visible_paths(all.subrange(0, i as int), ignored, patterns).push(paths@[i as int]@));
        }
        i = i + 1;
    }
    assert(all.subrange(0, paths@.len() as int) =~= all);
    if kept.len() == 0 {
        return None;
    }
    let rename_both = match kind {
        EventKind::Modify(ModifyKind::Name(RenameMode::Both)) => true,
        _ => false,
    };
    let new_kind = if rename_both && kept.len() != 2 {
        EventKind::Modify(ModifyKind::Name(RenameMode::Any))
    } else {
        kind
    };
    Some(WatchEvent { kind: new_kind, paths: kept })
}

} // verus!
