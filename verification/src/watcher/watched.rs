//! The directories watched one by one when the backend does not watch whole trees.
use vstd::prelude::*;
use crate::watcher::event::paths_view;
use crate::watcher::path::{ComponentView, WatchPath, parent_of, strictly_below};
use crate::watcher::path_order::{lemma_path_lt_irreflexive, lemma_path_lt_total, lemma_path_lt_transitive, path_lt};

verus! {

/// The proper ancestors of `p` that must be watched along with it: its parent, the
/// parent's parent, and so on, up to (and without) the first that is `root` or already
/// watched. The flag tells whether such a stopping ancestor was found.
pub open spec fn ancestors_to_watch(p: Seq<ComponentView>, root: Seq<ComponentView>, watched: Seq<Seq<ComponentView>>) -> (Seq<Seq<ComponentView>>, bool)
    decreases p.len(),
{
    match parent_of(p) {
        None => (Seq::empty(), false),
        Some(q) => if q == root || watched.contains(q) {
            (Seq::empty(), true)
        } else {
            let (rest, found) = ancestors_to_watch(q, root, watched);
            (seq![q] + rest, found)
        },
    }
}

/// Every watched directory sits right below the root or right below another watched
/// directory, and the root itself is not in the set (it is watched implicitly).
pub open spec fn closed_under_parents(watched: Seq<Seq<ComponentView>>, root: Seq<ComponentView>) -> bool {
    &&& !watched.contains(root)
    &&& forall|i: int| 0 <= i < watched.len() ==> (parent_of(#[trigger] watched[i]) matches Some(q) && (q == root || watched.contains(q)))
}

/// What to do so that a directory and its parents are watched.
#[derive(Debug)]
pub enum EnsureWatched {
    /// The directory is the root, which is always watched.
    Root,
    /// The directory was already watched.
    AlreadyWatched,
    /// Watch these directories, the one closest to the root first, recording each with
    /// [`WatchedDirs::record_watched`] once its watch is in place.
    Watch(Vec<WatchPath>),
    /// No ancestor of the directory is the root or a watched directory.
    MissingRoot,
}

/// `watched` holds its paths in strictly increasing path order.
pub open spec fn path_sorted(watched: Seq<Seq<ComponentView>>) -> bool {
    forall|i: int, j: int| 0 <= i < j < watched.len() ==> path_lt(#[trigger] watched[i], #[trigger] watched[j])
}

/// `watched` with `dir` put in its place in path order.
pub open spec fn sorted_insert(watched: Seq<Seq<ComponentView>>, dir: Seq<ComponentView>) -> Seq<Seq<ComponentView>>
    decreases watched.len(),
{
    if watched.len() == 0 {
        seq![dir]
    } else if path_lt(watched.last(), dir) {
        watched.push(dir)
    } else {
        sorted_insert(watched.drop_last(), dir).push(watched.last())
    }
}

/// Putting a new directory in its place keeps the paths sorted, and adds just it.
pub proof fn lemma_sorted_insert(watched: Seq<Seq<ComponentView>>, dir: Seq<ComponentView>)
    requires
        path_sorted(watched),
        !watched.contains(dir),
    ensures
        path_sorted(sorted_insert(watched, dir)),
        sorted_insert(watched, dir).no_duplicates(),
        sorted_insert(watched, dir).len() == watched.len() + 1,
        forall|x: Seq<ComponentView>| #[trigger] sorted_insert(watched, dir).contains(x) <==> watched.contains(x) || x == dir,
    decreases watched.len(),
{
    let r = sorted_insert(watched, dir);
    if watched.len() == 0 {
        assert(r =~= seq![dir]);
        assert forall|x: Seq<ComponentView>| #[trigger] r.contains(x) <==> watched.contains(x) || x == dir by {
            if r.contains(x) {
                assert(r[0] == dir);
            }
            if x == dir {
                assert(r[0] == dir);
            }
        }
    } else if path_lt(watched.last(), dir) {
        assert forall|i: int, j: int| 0 <= i < j < r.len() implies path_lt(#[trigger] r[i], #[trigger] r[j]) by {
            if j == watched.len() {
                if i < watched.len() - 1 {
                    lemma_path_lt_transitive(watched[i], watched.last(), dir);
                }
            }
        }
        assert forall|x: Seq<ComponentView>| #[trigger] r.contains(x) <==> watched.contains(x) || x == dir by {
            if r.contains(x) {
                let k = choose|k: int| 0 <= k < r.len() && r[k] == x;
                if k < watched.len() {
                    assert(watched[k] == x);
                }
            }
            if watched.contains(x) {
                let k = choose|k: int| 0 <= k < watched.len() && watched[k] == x;
                assert(r[k] == x);
            }
            if x == dir {
                assert(r[watched.len() as int] == dir);
            }
        }
    } else {
        let rest = watched.drop_last();
        let last = watched.last();
        assert(path_sorted(rest));
        assert(!rest.contains(dir)) by {
            if rest.contains(dir) {
                let k = choose|k: int| 0 <= k < rest.len() && rest[k] == dir;
                assert(watched[k] == dir);
            }
        }
        lemma_sorted_insert(rest, dir);
        let s = sorted_insert(rest, dir);
        assert(dir != last) by {
            assert(watched[watched.len() - 1] == last);
        }
        lemma_path_lt_total(dir, last);
        assert forall|x: Seq<ComponentView>| s.contains(x) implies path_lt(x, last) by {
            if x != dir {
                assert(rest.contains(x));
                let k = choose|k: int| 0 <= k < rest.len() && rest[k] == x;
                assert(watched[k] == x);
            }
        }
        assert forall|i: int, j: int| 0 <= i < j < r.len() implies path_lt(#[trigger] r[i], #[trigger] r[j]) by {
            if j == s.len() {
                assert(s.contains(s[i]));
            } else {
                assert(r[i] == s[i] && r[j] == s[j]);
            }
        }
        assert forall|x: Seq<ComponentView>| #[trigger] r.contains(x) <==> watched.contains(x) || x == dir by {
            if r.contains(x) {
                let k = choose|k: int| 0 <= k < r.len() && r[k] == x;
                if k < s.len() {
                    assert(s[k] == x);
                    assert(s.contains(x));
                    if x != dir {
                        let m = choose|m: int| 0 <= m < rest.len() && rest[m] == x;
                        assert(watched[m] == x);
                    }
                } else {
                    assert(watched[watched.len() - 1] == x);
                }
            }
            if watched.contains(x) {
                let k = choose|k: int| 0 <= k < watched.len() && watched[k] == x;
                if k < rest.len() {
                    assert(rest[k] == x);
                    assert(s.contains(x));
                    let m = choose|m: int| 0 <= m < s.len() && s[m] == x;
                    assert(r[m] == x);
                } else {
                    assert(r[s.len() as int] == x);
                }
            }
            if x == dir {
                assert(s.contains(dir));
                let m = choose|m: int| 0 <= m < s.len() && s[m] == dir;
                assert(r[m] == dir);
            }
        }
    }
    assert(r.no_duplicates()) by {
        assert forall|i: int, j: int| 0 <= i < r.len() && 0 <= j < r.len() && i != j implies r[i] != r[j] by {
            if i < j {
                lemma_path_lt_irreflexive(r[i]);
            } else {
                lemma_path_lt_irreflexive(r[j]);
            }
        }
    }
}

/// Where every path before position `i` comes before `dir` and every path from `i` on
/// comes after it, putting `dir` in its place puts it at `i`.
proof fn lemma_sorted_insert_at(watched: Seq<Seq<ComponentView>>, dir: Seq<ComponentView>, i: int)
    requires
        0 <= i <= watched.len(),
        forall|k: int| 0 <= k < i ==> path_lt(#[trigger] watched[k], dir),
        forall|k: int| i <= k < watched.len() ==> path_lt(dir, #[trigger] watched[k]),
    ensures
        sorted_insert(watched, dir) == watched.insert(i, dir),
    decreases watched.len(),
{
    if watched.len() == 0 {
        assert(watched.insert(i, dir) =~= seq![dir]);
    } else if i == watched.len() {
        assert(path_lt(watched[watched.len() - 1], dir));
        assert(watched.insert(i, dir) =~= watched.push(dir));
    } else {
        let last = watched.last();
        assert(path_lt(dir, watched[watched.len() - 1]));
        if path_lt(last, dir) {
            lemma_path_lt_transitive(dir, last, dir);
            lemma_path_lt_irreflexive(dir);
        }
        lemma_sorted_insert_at(watched.drop_last(), dir, i);
        assert(watched.drop_last().insert(i, dir).push(last) =~= watched.insert(i, dir));
    }
}

/// The directories currently or previously watched one by one, in path order. Never
/// holds the root, which is watched when watching starts.
pub struct WatchedDirs {
    dirs: Vec<WatchPath>,
}

impl View for WatchedDirs {
    type V = Seq<Seq<ComponentView>>;

    closed spec fn view(&self) -> Seq<Seq<ComponentView>> {
        paths_view(self.dirs@)
    }
}

/// The watched directories strictly below `dir`, in order.
pub open spec fn children_of(watched: Seq<Seq<ComponentView>>, dir: Seq<ComponentView>) -> Seq<Seq<ComponentView>>
    decreases watched.len(),
{
    if watched.len() == 0 {
        watched
    } else {
        let rest = children_of(watched.drop_last(), dir);
        if strictly_below(watched.last(), dir) {
            rest.push(watched.last())
        } else {
            rest
        }
    }
}

impl WatchedDirs {
    /// The directories are in strictly increasing path order, so none is recorded twice.
    pub open spec fn wf(&self) -> bool {
        &&& self@.no_duplicates()
        &&& path_sorted(self@)
    }

    /// No directory watched yet.
    pub fn new() -> (r: WatchedDirs)
        ensures
            r@ == Seq::<Seq<ComponentView>>::empty(),
            r.wf(),
    {
        let r = WatchedDirs { dirs: Vec::new() };
        assert(r@ =~= Seq::<Seq<ComponentView>>::empty());
        r
    }

    /// Whether `dir` is recorded.
    pub fn contains(&self, dir: &WatchPath) -> (r: bool)
        ensures
            r == self@.contains(dir@),
    {
        let mut i: usize = 0;
        while i < self.dirs.len()
            invariant
                i <= self.dirs@.len(),
                forall|k: int| 0 <= k < i ==> self@[k] != dir@,
            decreases self.dirs@.len() - i,
        {
            if self.dirs[i].same_as(dir) {
                assert(self@[i as int] == dir@);
                return true;
            }
            i = i + 1;
        }
        false
    }

    /// Records `dir` as watched, in its place in path order. Returns whether it was not
    /// recorded before.
    pub fn record_watched(&mut self, dir: &WatchPath) -> (r: bool)
        requires
            old(self).wf(),
        ensures
            r == !old(self)@.contains(dir@),
            final(self)@ == if r { sorted_insert(old(self)@, dir@) } else { old(self)@ },
            final(self).wf(),
    {
        if self.contains(dir) {
            return false;
        }
        let ghost before = self@;
        let mut i: usize = 0;
        while i < self.dirs.len() && self.dirs[i].is_before(dir)
            invariant
                i <= self.dirs@.len(),
                self@ == before,
                forall|k: int| 0 <= k < i ==> path_lt(#[trigger] before[k], dir@),
            decreases self.dirs@.len() - i,
        {
            i = i + 1;
        }
        proof {
            assert forall|k: int| i <= k < before.len() implies path_lt(dir@, #[trigger] before[k]) by {
                assert(!path_lt(before[i as int], dir@));
                assert(before[i as int] != dir@) by {
                    assert(!before.contains(dir@));
                }
                lemma_path_lt_total(dir@, before[i as int]);
                if k > i {
                    lemma_path_lt_transitive(dir@, before[i as int], before[k]);
                }
            }
            lemma_sorted_insert_at(before, dir@, i as int);
            lemma_sorted_insert(before, dir@);
        }
        self.dirs.insert(i, dir.duplicate());
        assert(self@ =~= before.insert(i as int, dir@));
        true
    }

    /// Every recorded directory, in path order.
    pub fn all(&self) -> (r: Vec<WatchPath>)
        ensures
            paths_view(r@) == self@,
    {
        let mut out: Vec<WatchPath> = Vec::new();
        let mut i: usize = 0;
        while i < self.dirs.len()
            invariant
                i <= self.dirs@.len(),
                paths_view(out@) == self@.subrange(0, i as int),
            decreases self.dirs@.len() - i,
        {
            let d = self.dirs[i].duplicate();
            let ghost prev = out@;
            out.push(d);
            assert(paths_view(out@) =~= paths_view(prev).push(d@));
            assert(self@.subrange(0, i + 1) =~= self@.subrange(0, i as int).push(self@[i as int]));
            i = i + 1;
        }
        assert(self@.subrange(0, i as int) =~= self@);
        out
    }

    /// The recorded directories strictly below `dir`, in path order.
    pub fn children(&self, dir: &WatchPath) -> (r: Vec<WatchPath>)
        ensures
            paths_view(r@) == children_of(self@, dir@),
    {
        let mut out: Vec<WatchPath> = Vec::new();
        let mut i: usize = 0;
        while i < self.dirs.len()
            invariant
                i <= self.dirs@.len(),
                paths_view(out@) == children_of(self@.subrange(0, i as int), dir@),
            decreases self.dirs@.len() - i,
        {
            assert(self@.subrange(0, i + 1).drop_last() =~= self@.subrange(0, i as int));
            assert(self@.subrange(0, i + 1).last() == self@[i as int]);
            if self.dirs[i].is_strictly_below(dir) {
                let d = self.dirs[i].duplicate();
                let ghost prev = out@;
                out.push(d);
                assert(paths_view(out@) =~= paths_view(prev).push(d@));
            }
            i = i + 1;
        }
        assert(self@.subrange(0, i as int) =~= self@);
        out
    }

    /// Computes the parents of `dir` to watch along with it, as `ancestors_to_watch`
    /// describes them.
    fn ancestors(&self, dir: &WatchPath, root: &WatchPath) -> (r: (Vec<WatchPath>, bool))
        ensures
            (paths_view(r.0@), r.1) == ancestors_to_watch(dir@, root@, self@),
    {
        let mut chain: Vec<WatchPath> = Vec::new();
        let mut current = dir.duplicate();
        loop
            invariant
                ({
                    let (rest, found) = ancestors_to_watch(current@, root@, self@);
                    ancestors_to_watch(dir@, root@, self@) == (paths_view(chain@) + rest, found)
                }),
            decreases current@.len(),
        {
            match current.parent() {
                None => {
                    assert(paths_view(chain@) + Seq::<Seq<ComponentView>>::empty() =~= paths_view(chain@));
                    return (chain, false);
                },
                Some(q) => {
                    if q.same_as(root) || self.contains(&q) {
                        assert(paths_view(chain@) + Seq::<Seq<ComponentView>>::empty() =~= paths_view(chain@));
                        return (chain, true);
                    }
                    let ghost prev = chain@;
                    let ghost (rest, found) = ancestors_to_watch(q@, root@, self@);
                    chain.push(q.duplicate());
                    assert(paths_view(chain@) =~= paths_view(prev).push(q@));
                    assert(paths_view(chain@) + rest =~= paths_view(prev) + (seq![q@] + rest));
                    current = q;
                },
            }
        }
    }

    /// Records `dir` and tells what to watch so that it and its parents are watched: the
    /// directory itself and each parent up to the root or an already watched one, the one
    /// closest to the root first.
    pub fn ensure_watched(&mut self, dir: &WatchPath, root: &WatchPath) -> (r: EnsureWatched)
        requires
            old(self).wf(),
        ensures
            final(self).wf(),
            dir@ == root@ ==> (r is Root && final(self)@ == old(self)@),
            dir@ != root@ && old(self)@.contains(dir@) ==> (r is AlreadyWatched && final(self)@ == old(self)@),
            dir@ != root@ && !old(self)@.contains(dir@) ==> {
                let (chain, found) = ancestors_to_watch(dir@, root@, sorted_insert(old(self)@, dir@));
                &&& final(self)@ == sorted_insert(old(self)@, dir@)
                &&& (found ==> (r matches EnsureWatched::Watch(plan) && paths_view(plan@) == (seq![dir@] + chain).reverse()))
                &&& (!found ==> r is MissingRoot)
            },
    {
        if dir.same_as(root) {
            return EnsureWatched::Root;
        }
        if !self.record_watched(dir) {
            return EnsureWatched::AlreadyWatched;
        }
        let (chain, found) = self.ancestors(dir, root);
        if !found {
            return EnsureWatched::MissingRoot;
        }
        let ghost full = seq![dir@] + paths_view(chain@);
        let mut plan: Vec<WatchPath> = Vec::new();
        let mut chain = chain;
        while chain.len() > 0
            invariant
                full == seq![dir@] + paths_view(chain@) + paths_view(plan@).reverse(),
            decreases chain@.len(),
        {
            let q = chain.pop().unwrap();
            let ghost prev = plan@;
            plan.push(q);
            assert(paths_view(plan@).reverse() =~= seq![q@] + paths_view(prev).reverse());
            assert(full =~= seq![dir@] + paths_view(chain@) + paths_view(plan@).reverse());
        }
        let ghost prev = plan@;
        plan.push(dir.duplicate());
        assert(paths_view(plan@).reverse() =~= seq![dir@] + paths_view(prev).reverse());
        assert(full =~= paths_view(plan@).reverse());
        assert(full.reverse() =~= paths_view(plan@));
        EnsureWatched::Watch(plan)
    }

    /// What to watch again when `dir` shows up anew: nothing for the root or a directory
    /// never recorded; otherwise `dir` and the recorded directories below it.
    pub fn restore_plan(&self, dir: &WatchPath, root: &WatchPath) -> (r: Vec<WatchPath>)
        ensures
            paths_view(r@) == if dir@ == root@ || !self@.contains(dir@) {
                Seq::empty()
            } else {
                seq![dir@] + children_of(self@, dir@)
            },
    {
        if dir.same_as(root) || !self.contains(dir) {
            let r: Vec<WatchPath> = Vec::new();
            assert(paths_view(r@) =~= Seq::<Seq<ComponentView>>::empty());
            return r;
        }
        let children = self.children(dir);
        let mut out: Vec<WatchPath> = Vec::new();
        out.push(dir.duplicate());
        let mut i: usize = 0;
        while i < children.len()
            invariant
                i <= children@.len(),
                paths_view(out@) == seq![dir@] + paths_view(children@).subrange(0, i as int),
            decreases children@.len() - i,
        {
            let d = children[i].duplicate();
            let ghost prev = out@;
            out.push(d);
            assert(paths_view(out@) =~= paths_view(prev).push(d@));
            assert(paths_view(children@).subrange(0, i + 1) =~= paths_view(children@).subrange(0, i as int).push(children@[i as int]@));
            i = i + 1;
        }
        assert(paths_view(children@).subrange(0, i as int) =~= paths_view(children@));
        out
    }
}

/// The ancestors to watch are all distinct from the root, and each is the parent of the
/// one before it, starting from `p`; the last one's parent is the root or watched.
proof fn lemma_ancestors_chain(p: Seq<ComponentView>, root: Seq<ComponentView>, watched: Seq<Seq<ComponentView>>)
    requires
        ancestors_to_watch(p, root, watched).1,
    ensures
        ({
            let chain = ancestors_to_watch(p, root, watched).0;
            let full = seq![p] + chain;
            &&& forall|k: int| 0 <= k < chain.len() ==> #[trigger] chain[k] != root && !watched.contains(chain[k])
            &&& forall|k: int| 0 <= k < full.len() - 1 ==> parent_of(#[trigger] full[k]) == Some(full[k + 1])
            &&& parent_of(full.last()) matches Some(q) && (q == root || watched.contains(q))
        }),
    decreases p.len(),
{
    let q = parent_of(p)->0;
    if q == root || watched.contains(q) {
    } else {
        lemma_ancestors_chain(q, root, watched);
        let rest = ancestors_to_watch(q, root, watched).0;
        let chain = seq![q] + rest;
        let full = seq![p] + chain;
        let sub = seq![q] + rest;
        assert forall|k: int| 0 <= k < chain.len() implies #[trigger] chain[k] != root && !watched.contains(chain[k]) by {
            if k > 0 {
                assert(chain[k] == rest[k - 1]);
            }
        }
        assert forall|k: int| 0 <= k < full.len() - 1 implies parent_of(#[trigger] full[k]) == Some(full[k + 1]) by {
            if k > 0 {
                assert(full[k] == sub[k - 1]);
                assert(full[k + 1] == sub[k]);
            }
        }
        assert(full.last() == sub.last());
    }
}

/// Law: once a directory and the parents that `ensure_watched` plans for it are all
/// recorded (in whatever order), every watched directory still sits right below the root
/// or right below another watched directory, and the root stays out of the set.
pub proof fn law_ensure_watched_keeps_parents_watched(
    watched: Seq<Seq<ComponentView>>,
    root: Seq<ComponentView>,
    dir: Seq<ComponentView>,
    after: Seq<Seq<ComponentView>>,
)
    requires
        closed_under_parents(watched, root),
        path_sorted(watched),
        dir != root,
        !watched.contains(dir),
        ancestors_to_watch(dir, root, sorted_insert(watched, dir)).1,
        forall|x: Seq<ComponentView>| after.contains(x) <==> (watched.contains(x) || x == dir
            || ancestors_to_watch(dir, root, sorted_insert(watched, dir)).0.contains(x)),
    ensures
        closed_under_parents(after, root),
{
    let w1 = sorted_insert(watched, dir);
    lemma_sorted_insert(watched, dir);
    let chain = ancestors_to_watch(dir, root, w1).0;
    let full = seq![dir] + chain;
    lemma_ancestors_chain(dir, root, w1);
    assert forall|k: int| 0 <= k < full.len() implies after.contains(#[trigger] full[k]) by {
        if k > 0 {
            assert(full[k] == chain[k - 1]);
            assert(chain.contains(chain[k - 1]));
        }
    }
    assert forall|x: Seq<ComponentView>| w1.contains(x) implies after.contains(x) by {
        assert(watched.contains(x) || x == dir);
    }
    assert(!after.contains(root)) by {
        if chain.contains(root) {
            let k = choose|k: int| 0 <= k < chain.len() && chain[k] == root;
        }
    }
    assert forall|i: int| 0 <= i < after.len() implies (parent_of(#[trigger] after[i]) matches Some(q) && (q == root || after.contains(q))) by {
        let x = after[i];
        assert(after.contains(x));
        if watched.contains(x) {
            let k = choose|k: int| 0 <= k < watched.len() && watched[k] == x;
            let q = parent_of(watched[k])->0;
            if q != root {
                assert(watched.contains(q));
                assert(w1.contains(q));
            }
        } else {
            let k: int = if x == dir {
                0
            } else {
                let j = choose|j: int| 0 <= j < chain.len() && chain[j] == x;
                assert(full[j + 1] == chain[j]);
                j + 1
            };
            assert(full[k] == x);
            if k < full.len() - 1 {
                assert(parent_of(full[k]) == Some(full[k + 1]));
            } else {
                assert(full[k] == full.last());
            }
        }
    }
}

/// `watched` after recording `dir` as [`WatchedDirs::record_watched`] does: put in its
/// place in path order, unless already there.
pub open spec fn record_one(watched: Seq<Seq<ComponentView>>, dir: Seq<ComponentView>) -> Seq<Seq<ComponentView>> {
    if watched.contains(dir) {
        watched
    } else {
        sorted_insert(watched, dir)
    }
}

/// `watched` after recording each of `dirs`, in order.
pub open spec fn record_each(watched: Seq<Seq<ComponentView>>, dirs: Seq<Seq<ComponentView>>) -> Seq<Seq<ComponentView>>
    decreases dirs.len(),
{
    if dirs.len() == 0 {
        watched
    } else {
        record_one(record_each(watched, dirs.drop_last()), dirs.last())
    }
}

proof fn lemma_record_each(watched: Seq<Seq<ComponentView>>, dirs: Seq<Seq<ComponentView>>)
    requires
        path_sorted(watched),
        watched.no_duplicates(),
    ensures
        forall|x: Seq<ComponentView>| #[trigger] record_each(watched, dirs).contains(x) <==> watched.contains(x) || dirs.contains(x),
        path_sorted(record_each(watched, dirs)),
        record_each(watched, dirs).no_duplicates(),
    decreases dirs.len(),
{
    if dirs.len() > 0 {
        let prev = record_each(watched, dirs.drop_last());
        lemma_record_each(watched, dirs.drop_last());
        if !prev.contains(dirs.last()) {
            lemma_sorted_insert(prev, dirs.last());
        }
        assert forall|x: Seq<ComponentView>| #[trigger] record_each(watched, dirs).contains(x) <==> watched.contains(x) || dirs.contains(x) by {
            if dirs.drop_last().contains(x) {
                let k = choose|k: int| 0 <= k < dirs.drop_last().len() && dirs.drop_last()[k] == x;
                assert(dirs[k] == x);
            }
            if dirs.contains(x) && x != dirs.last() {
                let k = choose|k: int| 0 <= k < dirs.len() && dirs[k] == x;
                assert(k != dirs.len() - 1);
                assert(dirs.drop_last()[k] == x);
            }
            if x == dirs.last() {
                assert(dirs[dirs.len() - 1] == x);
            }
        }
    }
}

/// Law: making sure a directory is watched and then recording each directory of the plan
/// once its watch is in place (as [`WatchedDirs::ensure_watched`] asks) leaves the
/// directory watched, every watched directory right below the root or right below another
/// watched directory, the root out of the set, and the set in path order with no
/// directory twice. This holds where a chain of parents leads from the directory to the
/// root or to a watched directory.
pub proof fn law_ensure_watched_then_recorded(watched: Seq<Seq<ComponentView>>, root: Seq<ComponentView>, dir: Seq<ComponentView>)
    requires
        closed_under_parents(watched, root),
        watched.no_duplicates(),
        path_sorted(watched),
        dir != root,
        !watched.contains(dir),
        ancestors_to_watch(dir, root, sorted_insert(watched, dir)).1,
    ensures
        ({
            let w1 = sorted_insert(watched, dir);
            let plan = (seq![dir] + ancestors_to_watch(dir, root, w1).0).reverse();
            let after = record_each(w1, plan);
            &&& closed_under_parents(after, root)
            &&& after.contains(dir)
            &&& after.no_duplicates()
            &&& path_sorted(after)
        }),
{
    let w1 = sorted_insert(watched, dir);
    lemma_sorted_insert(watched, dir);
    let chain = ancestors_to_watch(dir, root, w1).0;
    let plan = (seq![dir] + chain).reverse();
    let after = record_each(w1, plan);
    lemma_record_each(w1, plan);
    assert forall|x: Seq<ComponentView>| after.contains(x) <==> (watched.contains(x) || x == dir || chain.contains(x)) by {
        let full = seq![dir] + chain;
        if plan.contains(x) {
            let k = choose|k: int| 0 <= k < plan.len() && plan[k] == x;
            assert(full[full.len() - 1 - k] == x);
            if full.len() - 1 - k > 0 {
                assert(chain[full.len() - 1 - k - 1] == x);
            }
        }
        if chain.contains(x) {
            let k = choose|k: int| 0 <= k < chain.len() && chain[k] == x;
            assert(full[k + 1] == x);
            assert(plan[full.len() - 1 - (k + 1)] == x);
        }
    }
    law_ensure_watched_keeps_parents_watched(watched, root, dir, after);
}

} // verus!
