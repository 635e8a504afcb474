//! The paths of a batch with their flags, kept in an insertion-ordered hash map: each path
//! once, in the order it was first marked.
use indexmap::IndexMap;
use rustc_hash::FxBuildHasher;
use vstd::prelude::*;
use crate::watcher::batch::InvalidationFlags;
use crate::watcher::path::{ComponentView, WatchPath};

verus! {

#[verifier::external_type_specification]
#[verifier::external_body]
#[verifier::reject_recursive_types(K)]
#[verifier::reject_recursive_types(V)]
#[verifier::reject_recursive_types(S)]
pub struct ExIndexMap<K, V, S>(IndexMap<K, V, S>);

#[verifier::external_type_specification]
#[verifier::external_body]
pub struct ExFxBuildHasher(FxBuildHasher);

/// The entries of a map of paths, in the map's order: each path with its flags.
pub uninterp spec fn path_map_entries(m: IndexMap<WatchPath, InvalidationFlags, FxBuildHasher>) -> Seq<(Seq<ComponentView>, InvalidationFlags)>;

/// `IndexMap::default`: a map with no entry.
#[verifier::external_body]
pub(crate) fn path_map_new() -> (r: IndexMap<WatchPath, InvalidationFlags, FxBuildHasher>)
    ensures
        path_map_entries(r) == Seq::<(Seq<ComponentView>, InvalidationFlags)>::empty(),
{
    IndexMap::default()
}

/// `IndexMap::len`: the number of entries.
#[verifier::external_body]
pub(crate) fn path_map_len(m: &IndexMap<WatchPath, InvalidationFlags, FxBuildHasher>) -> (r: usize)
    ensures
        r == path_map_entries(*m).len(),
{
    m.len()
}

/// `IndexMap::get_index_of`: the position of the entry whose path equals `path`, if any.
/// Paths are equal when their components are.
#[verifier::external_body]
pub(crate) fn path_map_index_of(m: &IndexMap<WatchPath, InvalidationFlags, FxBuildHasher>, path: &WatchPath) -> (r: Option<usize>)
    ensures
        r matches Some(i) ==> i < path_map_entries(*m).len() && path_map_entries(*m)[i as int].0 == path@,
        r is None ==> forall|k: int| 0 <= k < path_map_entries(*m).len() ==> #[trigger] path_map_entries(*m)[k].0 != path@,
{
    m.get_index_of(path)
}

/// `IndexMap::get_index`: the entry at position `i`, if there is one.
#[verifier::external_body]
pub(crate) fn path_map_get(m: &IndexMap<WatchPath, InvalidationFlags, FxBuildHasher>, i: usize) -> (r: Option<(&WatchPath, InvalidationFlags)>)
    ensures
        r is Some == (i < path_map_entries(*m).len()),
        r matches Some((p, f)) ==> p@ == path_map_entries(*m)[i as int].0 && f == path_map_entries(*m)[i as int].1,
{
    m.get_index(i).map(|(p, f)| (p, *f))
}

/// `IndexMap::insert_full`: when an entry's path equals `path`, its flags become `flags`
/// and it keeps its place; otherwise the entry is appended. Gives the entry's position.
#[verifier::external_body]
pub(crate) fn path_map_insert(m: &mut IndexMap<WatchPath, InvalidationFlags, FxBuildHasher>, path: WatchPath, flags: InvalidationFlags) -> (r: usize)
    ensures
        ({
            let e = path_map_entries(*old(m));
            if exists|k: int| 0 <= k < e.len() && #[trigger] e[k].0 == path@ {
                &&& r < e.len()
                &&& e[r as int].0 == path@
                &&& path_map_entries(*final(m)) == e.update(r as int, (path@, flags))
            } else {
                &&& r == e.len()
                &&& path_map_entries(*final(m)) == e.push((path@, flags))
            }
        }),
{
    m.insert_full(path, flags).0
}

/// `IndexMap::clear`: removes every entry.
#[verifier::external_body]
pub(crate) fn path_map_clear(m: &mut IndexMap<WatchPath, InvalidationFlags, FxBuildHasher>)
    ensures
        path_map_entries(*final(m)) == Seq::<(Seq<ComponentView>, InvalidationFlags)>::empty(),
{
    m.clear()
}

} // verus!
