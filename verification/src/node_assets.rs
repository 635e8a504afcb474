//! The assets emitted for evaluating code in Node.js: the internal ones, inside the output
//! directory and reachable from the entry through internal assets, and the external ones
//! they reference.
use vstd::prelude::*;
use crate::graph::{
    GraphVisit, VisitView, discovered_in_order, law_finished_visit_is_closed, law_finished_visit_is_least,
    law_references_keep_discovery_order, visit_wf,
};

verus! {

/// The model of a separation: the traversal of the internal assets, the external assets
/// found so far, and the references (each with whether it lies inside the output
/// directory) of every internal asset expanded so far.
pub struct SeparationView {
    pub visit: VisitView,
    pub external: Seq<u64>,
    pub references: Map<u64, Seq<(u64, bool)>>,
}

/// The references inside the output directory.
pub open spec fn inside_ids(refs: Seq<(u64, bool)>) -> Seq<u64>
    decreases refs.len(),
{
    if refs.len() == 0 {
        Seq::empty()
    } else if refs.last().1 {
        inside_ids(refs.drop_last()).push(refs.last().0)
    } else {
        inside_ids(refs.drop_last())
    }
}

/// The separation is consistent: the traversal is; no external asset is listed twice; the
/// references of the expanded internal assets are known, their inside ones are the edges
/// of the traversal, and their outside ones are external.
pub open spec fn separation_wf(s: SeparationView) -> bool {
    &&& visit_wf(s.visit)
    &&& s.external.no_duplicates()
    &&& s.references.dom() == s.visit.edges.dom()
    &&& forall|n: u64| #[trigger] s.references.contains_key(n) ==> s.visit.edges[n] == inside_ids(s.references[n])
    &&& forall|n: u64, r: u64| s.references.contains_key(n) && #[trigger] s.references[n].contains((r, false)) ==> s.external.contains(r)
}

/// Splits the assets reachable from an entry into internal and external ones. The caller
/// hands in the references of each internal asset handed out by [`Self::next_internal`].
pub struct AssetSeparation {
    visit: GraphVisit,
    external: Vec<u64>,
    references: Ghost<Map<u64, Seq<(u64, bool)>>>,
}

impl View for AssetSeparation {
    type V = SeparationView;

    closed spec fn view(&self) -> SeparationView {
        SeparationView { visit: self.visit@, external: self.external@, references: self.references@ }
    }
}

impl AssetSeparation {
    /// Whether the separation is consistent.
    pub open spec fn wf(&self) -> bool {
        separation_wf(self@)
    }

    /// A separation from the entry `root`, which is internal.
    pub fn new(root: u64) -> (r: AssetSeparation)
        ensures
            r.wf(),
            r@.visit.seen == seq![root],
            r@.visit.queue == seq![root],
            r@.external.len() == 0,
    {
        let r = AssetSeparation { visit: GraphVisit::new(root), external: Vec::new(), references: Ghost(Map::empty()) };
        assert(r@.references.dom() =~= r@.visit.edges.dom());
        r
    }

    /// The next internal asset whose references are needed.
    pub fn next_internal(&mut self) -> (r: Option<u64>)
        requires
            old(self).wf(),
        ensures
            final(self).wf(),
            final(self)@.external == old(self)@.external,
            final(self)@.visit.seen == old(self)@.visit.seen,
            old(self)@.visit.queue.len() == 0 ==> r is None,
            old(self)@.visit.queue.len() > 0 ==> r == Some(old(self)@.visit.queue.last())
                && final(self)@.visit.expanding == old(self)@.visit.expanding.push(old(self)@.visit.queue.last()),
    {
        self.visit.next()
    }

    /// The references of the internal asset `asset`, each with whether it lies inside the
    /// output directory: the inside ones are internal, the outside ones external.
    pub fn add_references(&mut self, asset: u64, references: Vec<(u64, bool)>)
        requires
            old(self).wf(),
            old(self)@.visit.expanding.contains(asset),
        ensures
            final(self).wf(),
            forall|n: u64| #[trigger] final(self)@.visit.seen.contains(n) <==> old(self)@.visit.seen.contains(n)
                || references@.contains((n, true)),
            forall|n: u64| #[trigger] final(self)@.external.contains(n) <==> old(self)@.external.contains(n)
                || references@.contains((n, false)),
            final(self)@.references == old(self)@.references.insert(asset, references@),
            old(self)@.visit.seen.is_prefix_of(final(self)@.visit.seen),
    {
        let ghost start = self@;
        let mut inside: Vec<u64> = Vec::new();
        let mut i: usize = 0;
        while i < references.len()
            invariant
                i <= references@.len(),
                inside@ == inside_ids(references@.subrange(0, i as int)),
                forall|n: u64| #[trigger] self.external@.contains(n) <==> start.external.contains(n)
                    || references@.subrange(0, i as int).contains((n, false)),
                self.external@.no_duplicates(),
                self.visit@ == start.visit,
                self.references@ == start.references,
            decreases references@.len() - i,
        {
            let (id, is_inside) = references[i];
            let ghost before = references@.subrange(0, i as int);
            let ghost after = references@.subrange(0, i + 1);
            assert(after =~= before.push((id, is_inside)));
            assert(after.drop_last() =~= before);
            if is_inside {
                inside.push(id);
                assert(inside@ =~= inside_ids(after));
            } else {
                let ghost ext = self.external@;
                let mut k: usize = 0;
                let mut found = false;
                while k < self.external.len()
                    invariant
                        k <= self.external@.len(),
                        self.external@ == ext,
                        !found ==> forall|j: int| 0 <= j < k ==> self.external@[j] != id,
                        found ==> self.external@.contains(id),
                    decreases self.external@.len() - k,
                {
                    if self.external[k] == id {
                        found = true;
                        assert(self.external@[k as int] == id);
                    }
                    k = k + 1;
                }
                if !found {
                    self.external.push(id);
                    proof {
                        assert forall|a: int, b: int| 0 <= a < b < self.external@.len() implies self.external@[a] != self.external@[b] by {
                            if b == ext.len() {
                                assert(ext.contains(self.external@[a]));
                            }
                        }
                        assert forall|n: u64| #[trigger] self.external@.contains(n) <==> ext.contains(n) || n == id by {
                            if self.external@.contains(n) {
                                let j = choose|j: int| 0 <= j < self.external@.len() && self.external@[j] == n;
                                if j < ext.len() {
                                    assert(ext[j] == n);
                                }
                            }
                            if ext.contains(n) {
                                let j = choose|j: int| 0 <= j < ext.len() && ext[j] == n;
                                assert(self.external@[j] == n);
                            }
                            if n == id {
                                assert(self.external@[ext.len() as int] == id);
                            }
                        }
                    }
                }
                assert(inside@ =~= inside_ids(after));
            }
            proof {
                assert forall|n: u64| #[trigger] self.external@.contains(n) <==> start.external.contains(n) || after.contains((n, false)) by {
                    if after.contains((n, false)) && !before.contains((n, false)) {
                        let j = choose|j: int| 0 <= j < after.len() && after[j] == (n, false);
                        if j < before.len() {
                            assert(before[j] == (n, false));
                        }
                        assert(n == id && !is_inside);
                    }
                    if before.contains((n, false)) {
                        let j = choose|j: int| 0 <= j < before.len() && before[j] == (n, false);
                        assert(after[j] == (n, false));
                    }
                    if !is_inside && n == id {
                        assert(after[i as int] == (n, false));
                    }
                }
            }
            i = i + 1;
        }
        assert(references@.subrange(0, i as int) =~= references@);
        let ghost ins = inside@;
        self.visit.add_references(asset, inside);
        self.references = Ghost(start.references.insert(asset, references@));
        proof {
            let s = self@;
            assert(s.references.dom() =~= s.visit.edges.dom());
            assert forall|n: u64| #[trigger] s.visit.seen.contains(n) <==> start.visit.seen.contains(n) || references@.contains((n, true)) by {
                if ins.contains(n) {
                    let j = choose|j: int| 0 <= j < ins.len() && ins[j] == n;
                    lemma_inside_ids_member(references@, n);
                }
                if references@.contains((n, true)) {
                    lemma_inside_ids_member(references@, n);
                }
            }
            assert forall|n: u64, r: u64| s.references.contains_key(n) && #[trigger] s.references[n].contains((r, false)) implies s.external.contains(r) by {
                if n != asset {
                    assert(start.references[n] == s.references[n]);
                }
            }
        }
    }

    /// Whether every internal asset has been expanded: the separation is complete.
    pub fn is_done(&self) -> (r: bool)
        ensures
            r == (self@.visit.queue.len() == 0 && self@.visit.expanding.len() == 0),
    {
        self.visit.is_done()
    }

    /// The internal assets, in the order they were found.
    pub fn internal_assets(&self) -> (r: &Vec<u64>)
        ensures
            r@ == self@.visit.seen,
    {
        self.visit.seen()
    }

    /// The external assets, in the order they were found.
    pub fn external_asset_entrypoints(&self) -> (r: &Vec<u64>)
        ensures
            r@ == self@.external,
    {
        &self.external
    }
}

/// `n` is among the inside references exactly when `(n, true)` is a reference.
proof fn lemma_inside_ids_member(refs: Seq<(u64, bool)>, n: u64)
    ensures
        inside_ids(refs).contains(n) <==> refs.contains((n, true)),
    decreases refs.len(),
{
    if refs.len() > 0 {
        let before = refs.drop_last();
        lemma_inside_ids_member(before, n);
        assert(refs =~= before.push(refs.last()));
        if refs.last().1 {
            assert(inside_ids(refs) =~= inside_ids(before).push(refs.last().0));
        } else {
            assert(inside_ids(refs) =~= inside_ids(before));
        }
        if refs.contains((n, true)) && !before.contains((n, true)) {
            let j = choose|j: int| 0 <= j < refs.len() && refs[j] == (n, true);
            if j < before.len() {
                assert(before[j] == (n, true));
            }
        }
        if before.contains((n, true)) {
            let j = choose|j: int| 0 <= j < before.len() && before[j] == (n, true);
            assert(refs[j] == (n, true));
        }
        if inside_ids(refs).contains(n) && !inside_ids(before).contains(n) {
            assert(refs.last() == (n, true));
            assert(refs[refs.len() - 1] == (n, true));
        }
        if inside_ids(before).contains(n) {
            let j = choose|j: int| 0 <= j < inside_ids(before).len() && inside_ids(before)[j] == n;
            if refs.last().1 {
                assert(inside_ids(refs)[j] == n);
            } else {
                assert(inside_ids(refs)[j] == n);
            }
        }
        if refs.last() == (n, true) {
            assert(inside_ids(refs)[inside_ids(refs).len() - 1] == n);
        }
    }
}

/// Once the separation is complete, every inside reference of an internal asset is
/// internal and every outside reference of an internal asset is external; the entry is
/// internal.
pub proof fn law_separation_is_closed(s: SeparationView, root: u64)
    requires
        separation_wf(s),
        s.visit.queue.len() == 0,
        s.visit.expanding.len() == 0,
        s.visit.seen.len() > 0 && s.visit.seen[0] == root,
    ensures
        s.visit.seen.contains(root),
        forall|n: u64, r: u64| s.visit.seen.contains(n) && #[trigger] s.references[n].contains((r, true)) ==> s.visit.seen.contains(r),
        forall|n: u64, r: u64| s.visit.seen.contains(n) && #[trigger] s.references[n].contains((r, false)) ==> s.external.contains(r),
{
    assert(s.visit.seen[0] == root);
    crate::graph::law_finished_visit_is_closed(s.visit);
    assert forall|n: u64, r: u64| s.visit.seen.contains(n) && #[trigger] s.references[n].contains((r, true)) implies s.visit.seen.contains(r) by {
        assert(s.visit.edges.contains_key(n));
        assert(s.references.contains_key(n));
        lemma_inside_ids_member(s.references[n], r);
        assert(s.visit.edges[n].contains(r));
    }
    assert forall|n: u64, r: u64| s.visit.seen.contains(n) && #[trigger] s.references[n].contains((r, false)) implies s.external.contains(r) by {
        assert(s.visit.edges.contains_key(n));
        assert(s.references.contains_key(n));
    }
}

/// Every external asset was found as an outside reference of an expanded internal asset.
pub open spec fn externals_found(s: SeparationView) -> bool {
    forall|r: u64| #[trigger] s.external.contains(r) ==> exists|n: u64| s.references.contains_key(n) && #[trigger] s.references[n].contains((r, false))
}

/// A separation starts with nothing external and its entry alone internal; handing in the
/// references of an internal asset (what [`AssetSeparation::add_references`] states of the
/// separation after it) keeps its internal assets in discovery order and its external
/// assets found by references.
pub proof fn law_references_keep_separation_found(s: SeparationView, asset: u64, references: Seq<(u64, bool)>, after: SeparationView)
    requires
        separation_wf(s),
        separation_wf(after),
        externals_found(s),
        discovered_in_order(s.visit),
        s.visit.expanding.contains(asset),
        forall|n: u64| #[trigger] after.visit.seen.contains(n) <==> s.visit.seen.contains(n) || references.contains((n, true)),
        forall|n: u64| #[trigger] after.external.contains(n) <==> s.external.contains(n) || references.contains((n, false)),
        after.references == s.references.insert(asset, references),
        s.visit.seen.is_prefix_of(after.visit.seen),
    ensures
        externals_found(after),
        discovered_in_order(after.visit),
{
    assert forall|r: u64| #[trigger] after.external.contains(r) implies exists|n: u64| after.references.contains_key(n)
        && #[trigger] after.references[n].contains((r, false)) by {
        if references.contains((r, false)) {
            assert(after.references.contains_key(asset) && after.references[asset].contains((r, false)));
        } else {
            assert(s.external.contains(r));
            let n = choose|n: u64| s.references.contains_key(n) && #[trigger] s.references[n].contains((r, false));
            assert(n != asset) by {
                assert(!s.visit.edges.contains_key(asset));
            }
            assert(after.references.contains_key(n) && after.references[n].contains((r, false)));
        }
    }
    assert(after.visit.edges =~= s.visit.edges.insert(asset, inside_ids(references))) by {
        assert forall|n: u64| after.visit.edges.contains_key(n) <==> #[trigger] s.visit.edges.insert(asset, inside_ids(references)).contains_key(n) by {
            assert(after.references.contains_key(n) <==> s.references.insert(asset, references).contains_key(n));
        }
        assert forall|n: u64| after.visit.edges.contains_key(n) implies #[trigger] after.visit.edges[n] == s.visit.edges.insert(asset, inside_ids(references))[n] by {
            assert(after.references.contains_key(n));
            if n != asset {
                assert(s.references.contains_key(n));
            }
        }
    }
    assert forall|n: u64| #[trigger] after.visit.seen.contains(n) <==> s.visit.seen.contains(n) || inside_ids(references).contains(n) by {
        lemma_inside_ids_member(references, n);
    }
    law_references_keep_discovery_order(s.visit, asset, inside_ids(references), after.visit);
}

/// Once a separation that went as [`law_references_keep_separation_found`] says is
/// complete, its internal assets lie in every set that holds the entry and is closed under
/// the inside references, and its external assets are exactly the outside references of
/// internal assets.
pub proof fn law_separation_is_exact(s: SeparationView, internal: Set<u64>)
    requires
        separation_wf(s),
        externals_found(s),
        discovered_in_order(s.visit),
        s.visit.queue.len() == 0,
        s.visit.expanding.len() == 0,
        s.visit.seen.len() > 0,
        internal.contains(s.visit.seen[0]),
        forall|n: u64, r: u64| internal.contains(n) && s.references.contains_key(n) && #[trigger] s.references[n].contains((r, true)) ==> internal.contains(r),
    ensures
        forall|n: u64| s.visit.seen.contains(n) ==> #[trigger] internal.contains(n),
        forall|r: u64| #[trigger] s.external.contains(r) <==> exists|n: u64| s.visit.seen.contains(n) && #[trigger] s.references[n].contains((r, false)),
{
    assert forall|n: u64, r: u64| internal.contains(n) && s.visit.edges.contains_key(n) && #[trigger] s.visit.edges[n].contains(r) implies internal.contains(r) by {
        assert(s.references.contains_key(n));
        lemma_inside_ids_member(s.references[n], r);
    }
    law_finished_visit_is_least(s.visit, internal);
    law_finished_visit_is_closed(s.visit);
    assert forall|r: u64| #[trigger] s.external.contains(r) <==> exists|n: u64| s.visit.seen.contains(n) && #[trigger] s.references[n].contains((r, false)) by {
        if s.external.contains(r) {
            let n = choose|n: u64| s.references.contains_key(n) && #[trigger] s.references[n].contains((r, false));
            assert(s.visit.edges.contains_key(n));
            assert(s.visit.seen.contains(n));
        }
        if exists|n: u64| s.visit.seen.contains(n) && #[trigger] s.references[n].contains((r, false)) {
            let n = choose|n: u64| s.visit.seen.contains(n) && #[trigger] s.references[n].contains((r, false));
            assert(s.visit.edges.contains_key(n));
            assert(s.references.contains_key(n));
        }
    }
}

/// An internal asset as the source mapping sees it: whether it generates source maps, and
/// its path relative to the output directory when it has one.
#[derive(Debug)]
pub struct MappableAsset {
    pub asset: u64,
    pub generates_source_map: bool,
    pub relative_path: Option<String>,
}

/// The internal assets that generate source maps, by their paths relative to the output
/// directory; a later asset with the same path replaces an earlier one.
pub open spec fn source_mapping(assets: Seq<MappableAsset>) -> Map<Seq<char>, u64>
    decreases assets.len(),
{
    if assets.len() == 0 {
        Map::empty()
    } else {
        let rest = source_mapping(assets.drop_last());
        let a = assets.last();
        match a.relative_path {
            Some(p) => if a.generates_source_map { rest.insert(p@, a.asset) } else { rest },
            None => rest,
        }
    }
}

/// The map made of a list of entries with distinct paths.
pub open spec fn entries_map(v: Seq<(String, u64)>) -> Map<Seq<char>, u64>
    decreases v.len(),
{
    if v.len() == 0 {
        Map::empty()
    } else {
        entries_map(v.drop_last()).insert(v.last().0@, v.last().1)
    }
}

/// No two entries share a path.
pub open spec fn distinct_paths(v: Seq<(String, u64)>) -> bool {
    forall|i: int, j: int| 0 <= i < j < v.len() ==> #[trigger] v[i].0@ != #[trigger] v[j].0@
}

proof fn lemma_entries_map_keys(v: Seq<(String, u64)>, k: Seq<char>)
    ensures
        entries_map(v).contains_key(k) <==> exists|i: int| 0 <= i < v.len() && #[trigger] v[i].0@ == k,
    decreases v.len(),
{
    if v.len() > 0 {
        lemma_entries_map_keys(v.drop_last(), k);
        if exists|i: int| 0 <= i < v.len() && #[trigger] v[i].0@ == k {
            let i = choose|i: int| 0 <= i < v.len() && #[trigger] v[i].0@ == k;
            if i < v.len() - 1 {
                assert(v.drop_last()[i].0@ == k);
            }
        }
        if exists|i: int| 0 <= i < v.drop_last().len() && #[trigger] v.drop_last()[i].0@ == k {
            let i = choose|i: int| 0 <= i < v.drop_last().len() && #[trigger] v.drop_last()[i].0@ == k;
            assert(v[i].0@ == k);
        }
    }
}

proof fn lemma_entries_map_update(v: Seq<(String, u64)>, i: int, e: (String, u64))
    requires
        distinct_paths(v),
        0 <= i < v.len(),
        v[i].0@ == e.0@,
    ensures
        entries_map(v.update(i, e)) == entries_map(v).insert(e.0@, e.1),
        distinct_paths(v.update(i, e)),
    decreases v.len(),
{
    let u = v.update(i, e);
    if i == v.len() - 1 {
        assert(u.drop_last() =~= v.drop_last());
        assert(entries_map(v).insert(e.0@, e.1) =~= entries_map(v.drop_last()).insert(e.0@, e.1));
    } else {
        assert(u.drop_last() =~= v.drop_last().update(i, e));
        lemma_entries_map_update(v.drop_last(), i, e);
        assert(v.last().0@ != e.0@);
        assert(entries_map(u) =~= entries_map(v).insert(e.0@, e.1));
    }
    assert forall|a: int, b: int| 0 <= a < b < u.len() implies #[trigger] u[a].0@ != #[trigger] u[b].0@ by {
        assert(v[a].0@ != v[b].0@);
    }
}

/// The position of the entry for `path`, if any.
fn find_path(entries: &Vec<(String, u64)>, path: &str) -> (r: Option<usize>)
    ensures
        match r {
            Some(j) => j < entries@.len() && entries@[j as int].0@ == path@,
            None => forall|j: int| 0 <= j < entries@.len() ==> #[trigger] entries@[j].0@ != path@,
        },
{
    let mut i: usize = 0;
    while i < entries.len()
        invariant
            i <= entries@.len(),
            forall|j: int| 0 <= j < i ==> #[trigger] entries@[j].0@ != path@,
        decreases entries@.len() - i,
    {
        if crate::text::str_equal(entries[i].0.as_str(), path) {
            return Some(i);
        }
        i = i + 1;
    }
    None
}

/// The internal assets that generate source maps, by their paths relative to the output
/// directory: an asset without such a path is left out, and a later asset with the same
/// path replaces an earlier one.
pub fn internal_assets_for_source_mapping(assets: Vec<MappableAsset>) -> (r: Vec<(String, u64)>)
    ensures
        distinct_paths(r@),
        entries_map(r@) == source_mapping(assets@),
{
    let ghost all = assets@;
    let mut out: Vec<(String, u64)> = Vec::new();
    let mut assets = assets;
    let n = assets.len();
    let mut k: usize = 0;
    while assets.len() > 0
        invariant
            n == all.len(),
            k + assets@.len() == n,
            assets@ == all.subrange(k as int, n as int),
            distinct_paths(out@),
            entries_map(out@) == source_mapping(all.subrange(0, k as int)),
        decreases assets@.len(),
    {
        let ghost before = assets@;
        let a = assets.remove(0);
        proof {
            assert(before[0] == a);
            assert(all.subrange(k as int, n as int)[0] == all[k as int]);
            assert(assets@ =~= all.subrange(k + 1, n as int));
            assert(all.subrange(0, k + 1).drop_last() =~= all.subrange(0, k as int));
            assert(all.subrange(0, k + 1).last() == a);
        }
        if a.generates_source_map {
            if let Some(path) = a.relative_path {
                let at = find_path(&out, path.as_str());
                let ghost pv = path@;
                match at {
                    Some(j) => {
                        proof {
                            lemma_entries_map_update(out@, j as int, (path, a.asset));
                        }
                        out.set(j, (path, a.asset));
                    },
                    None => {
                        let ghost o = out@;
                        out.push((path, a.asset));
                        proof {
                            assert(out@.drop_last() =~= o);
                            assert forall|x: int, y: int| 0 <= x < y < out@.len() implies #[trigger] out@[x].0@ != #[trigger] out@[y].0@ by {
                                if y == o.len() {
                                    assert(o[x].0@ != pv);
                                } else {
                                    assert(o[x].0@ != o[y].0@);
                                }
                            }
                        }
                    },
                }
            }
        }
        k = k + 1;
    }
    assert(all.subrange(0, k as int) =~= all);
    out
}

} // verus!
