//! Traversals of graphs whose edges are found one node at a time: each node is visited
//! once, and the traversal ends once every reachable node has been visited and expanded.
use vstd::prelude::*;

verus! {

/// The model of a traversal: the nodes seen so far in order, those still to visit (the
/// last is visited next), those visited whose references are awaited, and the references
/// of each node expanded so far.
pub struct VisitView {
    pub seen: Seq<u64>,
    pub queue: Seq<u64>,
    pub expanding: Seq<u64>,
    pub edges: Map<u64, Seq<u64>>,
}

/// A node seen, visited, and whose references are known.
pub open spec fn is_expanded(v: VisitView, n: u64) -> bool {
    v.seen.contains(n) && !v.queue.contains(n) && !v.expanding.contains(n)
}

/// The traversal is consistent: nothing is seen twice; the nodes to visit and those being
/// expanded are seen, and none is both; the references of every expanded node are known
/// and seen; references are known of expanded nodes only.
pub open spec fn visit_wf(v: VisitView) -> bool {
    &&& v.seen.no_duplicates()
    &&& v.queue.no_duplicates()
    &&& v.expanding.no_duplicates()
    &&& forall|n: u64| v.queue.contains(n) ==> v.seen.contains(n) && !v.expanding.contains(n)
    &&& forall|n: u64| v.expanding.contains(n) ==> v.seen.contains(n)
    &&& forall|n: u64| #[trigger] v.edges.contains_key(n) <==> is_expanded(v, n)
    &&& forall|n: u64, r: u64| v.edges.contains_key(n) && #[trigger] v.edges[n].contains(r) ==> v.seen.contains(r)
}

/// A traversal of a graph from one node, the references of each visited node being
/// handed in when they are known.
pub struct GraphVisit {
    seen: Vec<u64>,
    queue: Vec<u64>,
    expanding: Vec<u64>,
    edges: Ghost<Map<u64, Seq<u64>>>,
}

impl View for GraphVisit {
    type V = VisitView;

    closed spec fn view(&self) -> VisitView {
        VisitView { seen: self.seen@, queue: self.queue@, expanding: self.expanding@, edges: self.edges@ }
    }
}

/// Whether `v` holds `x`.
fn holds(v: &Vec<u64>, x: u64) -> (r: bool)
    ensures
        r == v@.contains(x),
{
    let mut i: usize = 0;
    while i < v.len()
        invariant
            i <= v@.len(),
            forall|k: int| 0 <= k < i ==> v@[k] != x,
        decreases v@.len() - i,
    {
        if v[i] == x {
            assert(v@[i as int] == x);
            return true;
        }
        i = i + 1;
    }
    false
}

/// The position of `x` in `v`, which holds it.
fn position(v: &Vec<u64>, x: u64) -> (r: usize)
    requires
        v@.contains(x),
    ensures
        r < v@.len(),
        v@[r as int] == x,
{
    let mut i: usize = 0;
    while i < v.len()
        invariant
            i <= v@.len(),
            v@.contains(x),
            forall|k: int| 0 <= k < i ==> v@[k] != x,
        decreases v@.len() - i,
    {
        if v[i] == x {
            return i;
        }
        i = i + 1;
    }
    assert(false);
    0
}

impl GraphVisit {
    /// Whether the traversal is consistent.
    pub open spec fn wf(&self) -> bool {
        visit_wf(self@)
    }

    /// A traversal that starts at `root`, which is seen and to be visited.
    pub fn new(root: u64) -> (r: GraphVisit)
        ensures
            r.wf(),
            r@.seen == seq![root],
            r@.queue == seq![root],
            r@.expanding.len() == 0,
            r@.edges == Map::<u64, Seq<u64>>::empty(),
    {
        let mut seen: Vec<u64> = Vec::new();
        seen.push(root);
        let mut queue: Vec<u64> = Vec::new();
        queue.push(root);
        let r = GraphVisit { seen, queue, expanding: Vec::new(), edges: Ghost(Map::empty()) };
        proof {
            assert(r@.seen =~= seq![root]);
            assert(r@.queue =~= seq![root]);
            assert(r@.seen[0] == root);
            assert(forall|n: u64| r@.queue.contains(n) ==> n == root);
        }
        r
    }

    /// The nodes seen so far, in the order they were found.
    pub fn seen(&self) -> (r: &Vec<u64>)
        ensures
            r@ == self@.seen,
    {
        &self.seen
    }

    /// Whether every node seen was visited and expanded: the traversal is over.
    pub fn is_done(&self) -> (r: bool)
        ensures
            r == (self@.queue.len() == 0 && self@.expanding.len() == 0),
    {
        self.queue.len() == 0 && self.expanding.len() == 0
    }

    /// The next node to visit, the last found first; its references are then awaited.
    /// `None` when no node is left to visit.
    pub fn next(&mut self) -> (r: Option<u64>)
        requires
            old(self).wf(),
        ensures
            final(self).wf(),
            final(self)@.seen == old(self)@.seen,
            final(self)@.edges == old(self)@.edges,
            old(self)@.queue.len() == 0 ==> r is None && final(self)@ == old(self)@,
            old(self)@.queue.len() > 0 ==> r == Some(old(self)@.queue.last())
                && final(self)@.queue == old(self)@.queue.drop_last()
                && final(self)@.expanding == old(self)@.expanding.push(old(self)@.queue.last()),
    {
        match self.queue.pop() {
            None => None,
            Some(node) => {
                let ghost q = old(self)@.queue;
                self.expanding.push(node);
                proof {
                    let v = self@;
                    assert(q.contains(node)) by {
                        assert(q[q.len() - 1] == node);
                    }
                    assert forall|n: u64| v.queue.contains(n) implies q.contains(n) && n != node by {
                        let k = choose|k: int| 0 <= k < v.queue.len() && v.queue[k] == n;
                        assert(q[k] == n);
                        assert(q[q.len() - 1] == node);
                    }
                    assert forall|n: u64| v.expanding.contains(n) implies old(self)@.expanding.contains(n) || n == node by {
                        let k = choose|k: int| 0 <= k < v.expanding.len() && v.expanding[k] == n;
                        if k < old(self)@.expanding.len() {
                            assert(old(self)@.expanding[k] == n);
                        }
                    }
                    assert forall|n: u64| old(self)@.expanding.contains(n) implies v.expanding.contains(n) by {
                        let k = choose|k: int| 0 <= k < old(self)@.expanding.len() && old(self)@.expanding[k] == n;
                        assert(v.expanding[k] == n);
                    }
                    assert(v.expanding[v.expanding.len() - 1] == node);
                    assert(v.expanding.contains(node));
                    assert forall|n: u64| q.contains(n) && n != node implies v.queue.contains(n) by {
                        let k = choose|k: int| 0 <= k < q.len() && q[k] == n;
                        assert(k != q.len() - 1);
                        assert(v.queue[k] == n);
                    }
                    assert forall|a: int, b: int| 0 <= a < b < v.expanding.len() implies v.expanding[a] != v.expanding[b] by {
                        if b == v.expanding.len() - 1 {
                            assert(old(self)@.expanding.contains(v.expanding[a]));
                        }
                    }
                    assert forall|n: u64, x: u64| v.edges.contains_key(n) && #[trigger] v.edges[n].contains(x) implies v.seen.contains(x) by {
                        assert(old(self)@.edges.contains_key(n) && old(self)@.edges[n].contains(x));
                    }
                    assert forall|n: u64| #[trigger] v.edges.contains_key(n) <==> is_expanded(v, n) by {
                        assert(old(self)@.edges.contains_key(n) <==> is_expanded(old(self)@, n));
                        if v.queue.contains(n) {
                            assert(q.contains(n));
                        }
                        if q.contains(n) && n != node {
                            assert(v.queue.contains(n));
                        }
                        if v.expanding.contains(n) {
                            assert(old(self)@.expanding.contains(n) || n == node);
                        }
                        if old(self)@.expanding.contains(n) {
                            assert(v.expanding.contains(n));
                        }
                    }
                }
                Some(node)
            },
        }
    }

    /// The references of `node`, whose references were awaited: each not seen yet becomes
    /// seen and is to be visited, in order; `node` is then expanded.
    pub fn add_references(&mut self, node: u64, references: Vec<u64>)
        requires
            old(self).wf(),
            old(self)@.expanding.contains(node),
        ensures
            final(self).wf(),
            final(self)@.edges == old(self)@.edges.insert(node, references@),
            forall|n: u64| #[trigger] final(self)@.seen.contains(n) <==> old(self)@.seen.contains(n) || references@.contains(n),
            old(self)@.seen.is_prefix_of(final(self)@.seen),
            forall|n: u64| #[trigger] final(self)@.queue.contains(n) <==> old(self)@.queue.contains(n) || (references@.contains(n) && !old(self)@.seen.contains(n)),
            forall|n: u64| #[trigger] final(self)@.expanding.contains(n) <==> old(self)@.expanding.contains(n) && n != node,
    {
        let ghost start = self@;
        let at = position(&self.expanding, node);
        self.expanding.remove(at);
        proof {
            let v = self@;
            assert forall|n: u64| #[trigger] v.expanding.contains(n) <==> start.expanding.contains(n) && n != node by {
                if v.expanding.contains(n) {
                    let k = choose|k: int| 0 <= k < v.expanding.len() && v.expanding[k] == n;
                    if k < at {
                        assert(start.expanding[k] == n);
                        assert(k != at);
                    } else {
                        assert(start.expanding[k + 1] == n);
                    }
                }
                if start.expanding.contains(n) && n != node {
                    let k = choose|k: int| 0 <= k < start.expanding.len() && start.expanding[k] == n;
                    if k < at {
                        assert(v.expanding[k] == n);
                    } else {
                        assert(k != at);
                        assert(v.expanding[k - 1] == n);
                    }
                }
            }
        }
        let mut i: usize = 0;
        while i < references.len()
            invariant
                i <= references@.len(),
                visit_wf(VisitView { edges: start.edges.insert(node, references@.subrange(0, i as int)), ..self@ }),
                forall|n: u64| #[trigger] self@.seen.contains(n) <==> start.seen.contains(n) || references@.subrange(0, i as int).contains(n),
                start.seen.is_prefix_of(self@.seen),
                forall|n: u64| #[trigger] self@.queue.contains(n) <==> start.queue.contains(n)
                    || (references@.subrange(0, i as int).contains(n) && !start.seen.contains(n)),
                forall|n: u64| #[trigger] self@.expanding.contains(n) <==> start.expanding.contains(n) && n != node,
                self@.edges == start.edges,
                start.seen.contains(node),
                !start.queue.contains(node),
            decreases references@.len() - i,
        {
            let r = references[i];
            let ghost before = self@;
            let ghost refs_before = references@.subrange(0, i as int);
            let ghost refs_after = references@.subrange(0, i + 1);
            assert(refs_after =~= refs_before.push(r));
            if !holds(&self.seen, r) {
                self.seen.push(r);
                self.queue.push(r);
                proof {
                    let v = self@;
                    let ev = VisitView { edges: start.edges.insert(node, refs_after), ..v };
                    assert forall|n: u64| #[trigger] v.seen.contains(n) <==> before.seen.contains(n) || n == r by {
                        if v.seen.contains(n) {
                            let k = choose|k: int| 0 <= k < v.seen.len() && v.seen[k] == n;
                            if k < before.seen.len() {
                                assert(before.seen[k] == n);
                            }
                        }
                        if before.seen.contains(n) {
                            let k = choose|k: int| 0 <= k < before.seen.len() && before.seen[k] == n;
                            assert(v.seen[k] == n);
                        }
                        if n == r {
                            assert(v.seen[v.seen.len() - 1] == r);
                        }
                    }
                    assert forall|n: u64| #[trigger] v.queue.contains(n) <==> before.queue.contains(n) || n == r by {
                        if v.queue.contains(n) {
                            let k = choose|k: int| 0 <= k < v.queue.len() && v.queue[k] == n;
                            if k < before.queue.len() {
                                assert(before.queue[k] == n);
                            }
                        }
                        if before.queue.contains(n) {
                            let k = choose|k: int| 0 <= k < before.queue.len() && before.queue[k] == n;
                            assert(v.queue[k] == n);
                        }
                        if n == r {
                            assert(v.queue[v.queue.len() - 1] == r);
                        }
                    }
                    assert forall|a: int, b: int| 0 <= a < b < v.seen.len() implies v.seen[a] != v.seen[b] by {
                        if b == v.seen.len() - 1 {
                            assert(before.seen.contains(v.seen[a]));
                        }
                    }
                    assert forall|a: int, b: int| 0 <= a < b < v.queue.len() implies v.queue[a] != v.queue[b] by {
                        if b == v.queue.len() - 1 {
                            assert(before.queue.contains(v.queue[a]));
                        }
                    }
                    let bev = VisitView { edges: start.edges.insert(node, refs_before), ..before };
                    assert forall|n: u64| #[trigger] ev.edges.contains_key(n) <==> is_expanded(ev, n) by {
                        assert(bev.edges.contains_key(n) <==> is_expanded(bev, n));
                        assert(ev.edges.contains_key(n) <==> bev.edges.contains_key(n));
                        if n == r {
                            assert(!before.seen.contains(r));
                            assert(v.queue.contains(r));
                        } else {
                            assert(v.seen.contains(n) <==> before.seen.contains(n));
                            assert(v.queue.contains(n) <==> before.queue.contains(n));
                        }
                    }
                    assert forall|n: u64, x: u64| ev.edges.contains_key(n) && #[trigger] ev.edges[n].contains(x) implies ev.seen.contains(x) by {
                        if n == node && x == r {
                        } else if n == node {
                            let k = choose|k: int| 0 <= k < refs_after.len() && refs_after[k] == x;
                            assert(refs_before[k] == x);
                            assert(refs_before.contains(x));
                        } else {
                            assert(bev.edges[n] == ev.edges[n]);
                            assert(bev.edges.contains_key(n) && bev.edges[n].contains(x));
                            assert(before.seen.contains(x));
                        }
                    }
                    assert(start.seen.is_prefix_of(v.seen)) by {
                        assert forall|k: int| 0 <= k < start.seen.len() implies start.seen[k] == v.seen[k] by {
                            assert(before.seen[k] == v.seen[k]);
                        }
                    }
                    assert forall|n: u64| #[trigger] v.queue.contains(n) <==> start.queue.contains(n)
                        || (refs_after.contains(n) && !start.seen.contains(n)) by {
                        if refs_after.contains(n) && n != r {
                            let k = choose|k: int| 0 <= k < refs_after.len() && refs_after[k] == n;
                            assert(refs_before[k] == n);
                        }
                        if refs_before.contains(n) {
                            let k = choose|k: int| 0 <= k < refs_before.len() && refs_before[k] == n;
                            assert(refs_after[k] == n);
                        }
                        if n == r {
                            assert(refs_after[i as int] == r);
                        }
                    }
                    assert forall|n: u64| #[trigger] v.seen.contains(n) <==> start.seen.contains(n) || refs_after.contains(n) by {
                        if refs_after.contains(n) && n != r {
                            let k = choose|k: int| 0 <= k < refs_after.len() && refs_after[k] == n;
                            assert(refs_before[k] == n);
                        }
                        if refs_before.contains(n) {
                            let k = choose|k: int| 0 <= k < refs_before.len() && refs_before[k] == n;
                            assert(refs_after[k] == n);
                        }
                        if n == r {
                            assert(refs_after[i as int] == r);
                        }
                    }
                }
            } else {
                proof {
                    let v = self@;
                    let ev = VisitView { edges: start.edges.insert(node, refs_after), ..v };
                    let bev = VisitView { edges: start.edges.insert(node, refs_before), ..before };
                    assert(v == before);
                    assert forall|n: u64, x: u64| ev.edges.contains_key(n) && #[trigger] ev.edges[n].contains(x) implies ev.seen.contains(x) by {
                        if n == node && x == r {
                            assert(before.seen.contains(r));
                        } else if n == node {
                            let k = choose|k: int| 0 <= k < refs_after.len() && refs_after[k] == x;
                            assert(refs_before[k] == x);
                            assert(refs_before.contains(x));
                            assert(bev.edges[node].contains(x));
                        } else {
                            assert(bev.edges[n] == ev.edges[n]);
                            assert(bev.edges.contains_key(n) && bev.edges[n].contains(x));
                        }
                    }
                    assert forall|n: u64| #[trigger] ev.edges.contains_key(n) <==> is_expanded(ev, n) by {
                        assert(bev.edges.contains_key(n) <==> is_expanded(bev, n));
                        assert(ev.edges.contains_key(n) <==> bev.edges.contains_key(n));
                    }
                    assert forall|n: u64| #[trigger] v.queue.contains(n) <==> start.queue.contains(n)
                        || (refs_after.contains(n) && !start.seen.contains(n)) by {
                        if refs_after.contains(n) && n != r {
                            let k = choose|k: int| 0 <= k < refs_after.len() && refs_after[k] == n;
                            assert(refs_before[k] == n);
                        }
                        if refs_before.contains(n) {
                            let k = choose|k: int| 0 <= k < refs_before.len() && refs_before[k] == n;
                            assert(refs_after[k] == n);
                        }
                        if n == r && !start.seen.contains(r) {
                            assert(refs_before.contains(r));
                        }
                    }
                    assert forall|n: u64| #[trigger] v.seen.contains(n) <==> start.seen.contains(n) || refs_after.contains(n) by {
                        if refs_after.contains(n) && n != r {
                            let k = choose|k: int| 0 <= k < refs_after.len() && refs_after[k] == n;
                            assert(refs_before[k] == n);
                        }
                        if refs_before.contains(n) {
                            let k = choose|k: int| 0 <= k < refs_before.len() && refs_before[k] == n;
                            assert(refs_after[k] == n);
                        }
                    }
                }
            }
            i = i + 1;
        }
        assert(references@.subrange(0, i as int) =~= references@);
        self.edges = Ghost(start.edges.insert(node, references@));
    }
}

/// Starts a traversal at `node`: the traversal visits each node reachable from it once,
/// the caller visiting the node handed out by [`GraphVisit::next`] and handing its
/// references to [`GraphVisit::add_references`].
pub fn _visit(node: u64) -> (r: GraphVisit)
    ensures
        r.wf(),
        r@.seen == seq![node],
        r@.queue == seq![node],
        r@.expanding.len() == 0,
        r@.edges == Map::<u64, Seq<u64>>::empty(),
{
    GraphVisit::new(node)
}

/// Once a traversal is over, every node seen has been expanded and every reference of a
/// node seen is seen too: the nodes seen are closed under the references handed in.
pub proof fn law_finished_visit_is_closed(v: VisitView)
    requires
        visit_wf(v),
        v.queue.len() == 0,
        v.expanding.len() == 0,
    ensures
        forall|n: u64| v.seen.contains(n) ==> #[trigger] v.edges.contains_key(n),
        forall|n: u64, r: u64| v.seen.contains(n) && #[trigger] v.edges[n].contains(r) ==> v.seen.contains(r),
{
    assert forall|n: u64| v.seen.contains(n) implies #[trigger] v.edges.contains_key(n) by {
        assert(is_expanded(v, n));
    }
}

/// A node handed out by [`GraphVisit::next`] is never handed out again: it has left the
/// nodes to visit, and references only add nodes not seen before.
pub proof fn law_node_visited_once(v: VisitView, node: u64, references: Seq<u64>, after: VisitView)
    requires
        visit_wf(v),
        v.expanding.contains(node),
        forall|n: u64| #[trigger] after.queue.contains(n) <==> v.queue.contains(n) || (references.contains(n) && !v.seen.contains(n)),
    ensures
        !after.queue.contains(node),
{
}

/// Every node seen after the first was found among the references of a node seen before
/// it: the order in which a traversal discovers its nodes.
pub open spec fn discovered_in_order(v: VisitView) -> bool {
    forall|k: int| 0 < k < v.seen.len() ==> #[trigger] found_by_earlier(v, k)
}

/// The `k`-th node seen is among the references of a node seen before it.
pub open spec fn found_by_earlier(v: VisitView, k: int) -> bool {
    exists|j: int| 0 <= j < k && v.edges.contains_key(v.seen[j]) && #[trigger] v.edges[v.seen[j]].contains(v.seen[k])
}

/// A traversal starts in discovery order, and handing in the references of a node being
/// expanded (what [`GraphVisit::add_references`] states of the traversal after it) keeps
/// it so.
pub proof fn law_references_keep_discovery_order(v: VisitView, node: u64, references: Seq<u64>, after: VisitView)
    requires
        visit_wf(v),
        visit_wf(after),
        discovered_in_order(v),
        v.expanding.contains(node),
        after.edges == v.edges.insert(node, references),
        forall|n: u64| #[trigger] after.seen.contains(n) <==> v.seen.contains(n) || references.contains(n),
        v.seen.is_prefix_of(after.seen),
    ensures
        discovered_in_order(after),
        discovered_in_order(VisitView { seen: seq![v.seen[0]], queue: seq![v.seen[0]], expanding: Seq::empty(), edges: Map::empty() }),
{
    let j0 = choose|j: int| 0 <= j < v.seen.len() && v.seen[j] == node;
    assert(!v.edges.contains_key(node));
    assert forall|k: int| 0 < k < after.seen.len() implies #[trigger] found_by_earlier(after, k) by {
        if k < v.seen.len() {
            assert(after.seen[k] == v.seen[k]);
            assert(found_by_earlier(v, k));
            let j = choose|j: int| 0 <= j < k && v.edges.contains_key(v.seen[j]) && #[trigger] v.edges[v.seen[j]].contains(v.seen[k]);
            assert(after.seen[j] == v.seen[j]);
            assert(v.seen[j] != node);
            assert(after.edges[after.seen[j]] == v.edges[v.seen[j]]);
            assert(after.edges.contains_key(after.seen[j]) && after.edges[after.seen[j]].contains(after.seen[k]));
        } else {
            let n = after.seen[k];
            assert(after.seen.contains(n));
            if v.seen.contains(n) {
                let i = choose|i: int| 0 <= i < v.seen.len() && v.seen[i] == n;
                assert(after.seen[i] == n);
                assert(i != k);
            }
            assert(references.contains(n));
            assert(after.seen[j0] == node);
            assert(j0 < k);
            assert(after.edges.contains_key(after.seen[j0]) && after.edges[after.seen[j0]].contains(after.seen[k]));
        }
    }
    assert(discovered_in_order(after));
}

/// Once a traversal that went in discovery order is over, its nodes lie in every set that
/// holds the first node and is closed under the references handed in: with
/// [`law_finished_visit_is_closed`], the nodes seen are exactly those reachable from the
/// first, each seen once.
pub proof fn law_finished_visit_is_least(v: VisitView, s: Set<u64>)
    requires
        visit_wf(v),
        discovered_in_order(v),
        v.queue.len() == 0,
        v.expanding.len() == 0,
        v.seen.len() > 0,
        s.contains(v.seen[0]),
        forall|n: u64, r: u64| s.contains(n) && v.edges.contains_key(n) && #[trigger] v.edges[n].contains(r) ==> s.contains(r),
    ensures
        forall|n: u64| v.seen.contains(n) ==> #[trigger] s.contains(n),
{
    assert forall|k: int| 0 <= k < v.seen.len() implies s.contains(#[trigger] v.seen[k]) by {
        lemma_seen_in_closed_set(v, s, k);
    }
}

proof fn lemma_seen_in_closed_set(v: VisitView, s: Set<u64>, k: int)
    requires
        discovered_in_order(v),
        0 <= k < v.seen.len(),
        s.contains(v.seen[0]),
        forall|n: u64, r: u64| s.contains(n) && v.edges.contains_key(n) && #[trigger] v.edges[n].contains(r) ==> s.contains(r),
    ensures
        s.contains(v.seen[k]),
    decreases k,
{
    if k > 0 {
        assert(found_by_earlier(v, k));
        let j = choose|j: int| 0 <= j < k && v.edges.contains_key(v.seen[j]) && #[trigger] v.edges[v.seen[j]].contains(v.seen[k]);
        lemma_seen_in_closed_set(v, s, j);
    }
}

/// What polling the racing futures gave.
#[derive(Debug)]
pub enum RacePoll<T> {
    /// The race is over: the result of a finished future, or `None` when none was left.
    Done(Option<T>),
    /// No future has finished yet.
    Pending,
}

/// The result of polling each of `futures` in order: the first that finished is taken out,
/// its place taken by the last one, and its output returned; with no future left the
/// race ends with nothing. `outcomes[i]` is what polling `futures[i]` gave, where it was
/// polled; the output returned is taken out of it.
pub fn _race_pop<F, T>(futures: &mut Vec<F>, outcomes: &mut Vec<Option<T>>) -> (r: RacePoll<T>)
    requires
        old(outcomes)@.len() == old(futures)@.len(),
    ensures
        old(futures)@.len() == 0 ==> (r matches RacePoll::Done(None) && final(futures)@ == old(futures)@ && final(outcomes)@ == old(outcomes)@),
        (exists|i: int| 0 <= i < old(outcomes)@.len() && #[trigger] old(outcomes)@[i] is Some) ==> exists|i: int| {
            &&& 0 <= i < old(outcomes)@.len()
            &&& #[trigger] old(outcomes)@[i] is Some
            &&& forall|j: int| 0 <= j < i ==> #[trigger] old(outcomes)@[j] is None
            &&& r == RacePoll::Done(Some(old(outcomes)@[i].unwrap()))
            &&& final(futures)@ == old(futures)@.update(i, old(futures)@.last()).drop_last()
            &&& final(outcomes)@ == old(outcomes)@.update(i, old(outcomes)@.last()).drop_last()
        },
        old(futures)@.len() > 0 && (forall|i: int| 0 <= i < old(outcomes)@.len() ==> #[trigger] old(outcomes)@[i] is None)
            ==> (r is Pending && final(futures)@ == old(futures)@ && final(outcomes)@ == old(outcomes)@),
{
    if futures.len() == 0 {
        return RacePoll::Done(None);
    }
    let ghost all = outcomes@;
    let mut i: usize = 0;
    let n = outcomes.len();
    while i < n
        invariant
            n == outcomes@.len(),
            outcomes@ == all,
            all == old(outcomes)@,
            n == old(futures)@.len(),
            futures@ == old(futures)@,
            outcomes@ == old(outcomes)@,
            i <= n,
            forall|j: int| 0 <= j < i ==> #[trigger] all[j] is None,
        decreases n - i,
    {
        if outcomes[i].is_some() {
            let _finished = futures.swap_remove(i);
            let result = outcomes.swap_remove(i);
            proof {
                assert(result == all[i as int]);
                assert(all[i as int] == Some(all[i as int].unwrap()));
                assert(!(all[i as int] is None));
            }
            return RacePoll::Done(result);
        }
        i = i + 1;
    }
    RacePoll::Pending
}

} // verus!
