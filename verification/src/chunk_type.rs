//! The ECMAScript chunk type, and the order of the items of an ECMAScript chunk.
use vstd::prelude::*;
use crate::text::{chars_of, lemma_text_lt_irreflexive, lemma_text_lt_total, lemma_text_lt_transitive, text_less, text_lt};

verus! {

/// The chunk type of ECMAScript chunks.
#[derive(Clone, Copy, Debug, PartialEq, Eq, Structural)]
pub struct EcmascriptChunkType {}

impl Default for EcmascriptChunkType {
    fn default() -> (r: Self)
        ensures
            r == (EcmascriptChunkType {}),
    {
        EcmascriptChunkType {}
    }
}

impl EcmascriptChunkType {
    /// ECMAScript chunks are not style sheets.
    pub fn is_style(&self) -> (r: bool)
        ensures
            !r,
    {
        false
    }

    /// The name of the chunk type.
    pub fn value_to_string(&self) -> (r: String)
        ensures
            r@ == "ecmascript"@,
    {
        "ecmascript".to_owned()
    }
}

/// The id of a module: a number or a text.
#[derive(Debug)]
pub enum ModuleId {
    Number(u64),
    String(String),
}

/// A module id with its text as characters.
pub enum ModuleIdView {
    Number(u64),
    Text(Seq<char>),
}

/// The view of a module id.
pub open spec fn id_view(id: ModuleId) -> ModuleIdView {
    match id {
        ModuleId::Number(n) => ModuleIdView::Number(n),
        ModuleId::String(s) => ModuleIdView::Text(s@),
    }
}

/// The order of module ids: numbers first, by value, then texts, by character codes.
pub open spec fn id_lt(a: ModuleIdView, b: ModuleIdView) -> bool {
    match (a, b) {
        (ModuleIdView::Number(x), ModuleIdView::Number(y)) => x < y,
        (ModuleIdView::Number(_), ModuleIdView::Text(_)) => true,
        (ModuleIdView::Text(_), ModuleIdView::Number(_)) => false,
        (ModuleIdView::Text(x), ModuleIdView::Text(y)) => text_lt(x, y),
    }
}

proof fn lemma_id_lt_irreflexive(a: ModuleIdView)
    ensures
        !id_lt(a, a),
{
    if let ModuleIdView::Text(x) = a {
        lemma_text_lt_irreflexive(x);
    }
}

proof fn lemma_id_lt_transitive(a: ModuleIdView, b: ModuleIdView, c: ModuleIdView)
    requires
        id_lt(a, b),
        id_lt(b, c),
    ensures
        id_lt(a, c),
{
    if let (ModuleIdView::Text(x), ModuleIdView::Text(y), ModuleIdView::Text(z)) = (a, b, c) {
        lemma_text_lt_transitive(x, y, z);
    }
}

proof fn lemma_id_lt_total(a: ModuleIdView, b: ModuleIdView)
    requires
        a != b,
    ensures
        id_lt(a, b) || id_lt(b, a),
{
    if let (ModuleIdView::Text(x), ModuleIdView::Text(y)) = (a, b) {
        lemma_text_lt_total(x, y);
    }
}

/// Whether `a` comes before `b`.
fn id_less(a: &ModuleId, b: &ModuleId) -> (r: bool)
    ensures
        r == id_lt(id_view(*a), id_view(*b)),
{
    match (a, b) {
        (ModuleId::Number(x), ModuleId::Number(y)) => *x < *y,
        (ModuleId::Number(_), ModuleId::String(_)) => true,
        (ModuleId::String(_), ModuleId::Number(_)) => false,
        (ModuleId::String(x), ModuleId::String(y)) => text_less(&chars_of(x.as_str()), &chars_of(y.as_str())),
    }
}

/// The id a batch of chunk items is ordered by: the id of its first item, or the empty
/// text when it has none.
pub fn batch_module_id(first_item_id: Option<ModuleId>) -> (r: ModuleId)
    ensures
        match first_item_id {
            Some(id) => r == id,
            None => id_view(r) == ModuleIdView::Text(Seq::empty()),
        },
{
    match first_item_id {
        Some(id) => id,
        None => ModuleId::String(String::new()),
    }
}

/// `output` is `input` sorted by id, items with equal ids in their input order: `perm`
/// tells for each output position the input position it comes from.
pub open spec fn stably_sorted_by_id<T>(input: Seq<(ModuleIdView, T)>, output: Seq<T>, perm: Seq<int>) -> bool {
    &&& perm.len() == input.len()
    &&& output.len() == input.len()
    &&& forall|k: int| 0 <= k < perm.len() ==> 0 <= #[trigger] perm[k] < input.len()
    &&& forall|k: int, l: int| 0 <= k < l < perm.len() ==> #[trigger] perm[k] != #[trigger] perm[l]
    &&& forall|k: int| 0 <= k < output.len() ==> #[trigger] output[k] == input[perm[k]].1
    &&& forall|k: int, l: int| 0 <= k < l < perm.len() ==> !id_lt(input[#[trigger] perm[l]].0, input[#[trigger] perm[k]].0)
    &&& forall|k: int, l: int| 0 <= k < l < perm.len() && input[#[trigger] perm[k]].0 == input[#[trigger] perm[l]].0 ==> perm[k] < perm[l]
}

/// The items with their ids as views.
pub open spec fn items_view<T>(v: Seq<(ModuleId, T)>) -> Seq<(ModuleIdView, T)> {
    v.map_values(|p: (ModuleId, T)| (id_view(p.0), p.1))
}

/// The items ordered by their module ids, items with equal ids in their given order, so
/// that chunks of the same modules have the same content.
pub fn sort_by_module_id<T>(items_with_id: Vec<(ModuleId, T)>) -> (r: Vec<T>)
    ensures
        exists|perm: Seq<int>| stably_sorted_by_id(items_view(items_with_id@), r@, perm),
{
    let ghost input = items_view(items_with_id@);
    let mut rest = items_with_id;
    let n = rest.len();
    // insertion sort: each item goes after every item not after it
    let mut sorted: Vec<(ModuleId, T)> = Vec::new();
    let ghost mut perm: Seq<int> = Seq::empty();
    let mut k: usize = 0;
    while rest.len() > 0
        invariant
            input.len() == n,
            k + rest@.len() == input.len(),
            items_view(rest@) == input.subrange(k as int, input.len() as int),
            perm.len() == k,
            sorted@.len() == k,
            forall|a: int| 0 <= a < k ==> 0 <= #[trigger] perm[a] < k,
            forall|a: int, b: int| 0 <= a < b < k ==> #[trigger] perm[a] != #[trigger] perm[b],
            forall|a: int| 0 <= a < k ==> (id_view(#[trigger] sorted@[a].0), sorted@[a].1) == input[perm[a]],
            forall|a: int, b: int| 0 <= a < b < k ==> !id_lt(input[#[trigger] perm[b]].0, input[#[trigger] perm[a]].0),
            forall|a: int, b: int| 0 <= a < b < k && input[#[trigger] perm[a]].0 == input[#[trigger] perm[b]].0 ==> perm[a] < perm[b],
        decreases rest@.len(),
    {
        let ghost rv = rest@;
        let item = rest.remove(0);
        let ghost key = id_view(item.0);
        proof {
            assert(items_view(rv)[0] == (id_view(rv[0].0), rv[0].1));
            assert(input.subrange(k as int, input.len() as int)[0] == input[k as int]);
            assert(input[k as int] == (key, item.1));
            assert(items_view(rest@) =~= input.subrange(k + 1, input.len() as int)) by {
                assert forall|j: int| 0 <= j < rest@.len() implies items_view(rest@)[j] == input.subrange(k + 1, input.len() as int)[j] by {
                    assert(rest@[j] == rv[j + 1]);
                    assert(items_view(rv)[j + 1] == input.subrange(k as int, input.len() as int)[j + 1]);
                }
            }
        }
    let mut at: usize = 0;
        while at < sorted.len() && !id_less(&item.0, &sorted[at].0)
            invariant
                at <= sorted@.len(),
                sorted@.len() == k,
                perm.len() == k,
                key == id_view(item.0),
                forall|a: int| 0 <= a < k ==> (id_view(#[trigger] sorted@[a].0), sorted@[a].1) == input[perm[a]],
                forall|a: int| 0 <= a < at ==> !id_lt(key, #[trigger] input[perm[a]].0),
            decreases sorted@.len() - at,
        {
            assert((id_view(sorted@[at as int].0), sorted@[at as int].1) == input[perm[at as int]]);
            at = at + 1;
        }
        let ghost old_sorted = sorted@;
        let ghost old_perm = perm;
        proof {
            if at < k {
                assert((id_view(sorted@[at as int].0), sorted@[at as int].1) == input[perm[at as int]]);
                assert(id_lt(key, input[perm[at as int]].0));
            }
        }
        sorted.insert(at, item);
        proof {
            perm = old_perm.insert(at as int, k as int);
            assert forall|a: int| 0 <= a < k + 1 implies (id_view(#[trigger] sorted@[a].0), sorted@[a].1) == input[perm[a]] by {
                if a < at {
                    assert(sorted@[a] == old_sorted[a]);
                } else if a > at {
                    assert(sorted@[a] == old_sorted[a - 1]);
                }
            }
            assert forall|a: int| 0 <= a < k + 1 implies 0 <= #[trigger] perm[a] < k + 1 by {
                if a < at {
                    assert(perm[a] == old_perm[a]);
                } else if a > at {
                    assert(perm[a] == old_perm[a - 1]);
                }
            }
            assert forall|a: int, b: int| 0 <= a < b < k + 1 implies #[trigger] perm[a] != #[trigger] perm[b] by {
                if a < at && b < at {
                    assert(old_perm[a] != old_perm[b]);
                } else if a < at && b > at {
                    assert(old_perm[a] != old_perm[b - 1]);
                } else if a > at && b > at {
                    assert(old_perm[a - 1] != old_perm[b - 1]);
                }
            }
            assert forall|a: int, b: int| 0 <= a < b < k + 1 implies !id_lt(input[#[trigger] perm[b]].0, input[#[trigger] perm[a]].0) by {
                let pa = perm[a];
                let pb = perm[b];
                if a < at && b == at {
                    assert(pa == old_perm[a]);
                    assert(!id_lt(key, input[old_perm[a]].0));
                } else if a < at && b > at {
                    assert(pa == old_perm[a] && pb == old_perm[b - 1]);
                } else if a == at && b > at {
                    assert(pb == old_perm[b - 1]);
                    if at < k {
                        assert(id_lt(key, input[old_perm[at as int]].0));
                        if b - 1 > at {
                            assert(!id_lt(input[old_perm[b - 1]].0, input[old_perm[at as int]].0));
                            if id_lt(input[old_perm[b - 1]].0, key) {
                                lemma_id_lt_transitive(input[old_perm[b - 1]].0, key, input[old_perm[at as int]].0);
                            }
                        } else {
                            if id_lt(input[old_perm[b - 1]].0, key) {
                                lemma_id_lt_transitive(key, input[old_perm[b - 1]].0, key);
                                lemma_id_lt_irreflexive(key);
                            }
                        }
                    }
                } else if a > at && b > at {
                    assert(pa == old_perm[a - 1] && pb == old_perm[b - 1]);
                } else {
                    assert(pa == old_perm[a] && pb == old_perm[b]);
                }
            }
            assert forall|a: int, b: int| 0 <= a < b < k + 1 && input[#[trigger] perm[a]].0 == input[#[trigger] perm[b]].0
                implies perm[a] < perm[b] by {
                if a < at && b == at {
                    assert(perm[a] == old_perm[a]);
                } else if a == at && b > at {
                    assert(perm[b] == old_perm[b - 1]);
                    assert(input[old_perm[b - 1]].0 == key);
                    if at < k {
                        assert(id_lt(key, input[old_perm[at as int]].0));
                        if b - 1 > at {
                            assert(!id_lt(input[old_perm[b - 1]].0, input[old_perm[at as int]].0));
                        } else {
                            lemma_id_lt_irreflexive(key);
                        }
                    }
                } else if a < at && b > at {
                    assert(perm[a] == old_perm[a] && perm[b] == old_perm[b - 1]);
                } else if a > at && b > at {
                    assert(perm[a] == old_perm[a - 1] && perm[b] == old_perm[b - 1]);
                } else {
                    assert(perm[a] == old_perm[a] && perm[b] == old_perm[b]);
                }
            }
        }
        k = k + 1;
    }
    // drop the ids
    let mut out: Vec<T> = Vec::new();
    let ghost sv = sorted@;
    let mut m: usize = 0;
    while sorted.len() > 0
        invariant
            sv.len() == n,
            m + sorted@.len() == sv.len(),
            sorted@ == sv.subrange(m as int, sv.len() as int),
            out@.len() == m,
            forall|a: int| 0 <= a < m ==> #[trigger] out@[a] == sv[a].1,
        decreases sorted@.len(),
    {
        let ghost before = sorted@;
        let (_, item) = sorted.remove(0);
        proof {
            assert(before[0] == sv[m as int]);
            assert(sorted@ =~= sv.subrange(m + 1, sv.len() as int));
        }
        out.push(item);
        m = m + 1;
    }
    proof {
        assert forall|a: int| 0 <= a < out@.len() implies #[trigger] out@[a] == input[perm[a]].1 by {
            assert((id_view(sv[a].0), sv[a].1) == input[perm[a]]);
        }
        assert(stably_sorted_by_id(input, out@, perm));
    }
    out
}

/// `p` lists each position below `n` once.
pub open spec fn is_permutation(p: Seq<int>, n: int) -> bool {
    &&& p.len() == n
    &&& forall|k: int| 0 <= k < p.len() ==> 0 <= #[trigger] p[k] < n
    &&& forall|k: int, l: int| 0 <= k < l < p.len() ==> #[trigger] p[k] != #[trigger] p[l]
}

/// A sequence of `n` distinct positions below `n` holds every one of them.
proof fn lemma_permutation_covers(p: Seq<int>, n: int, i: int)
    requires
        is_permutation(p, n),
        0 <= i < n,
    ensures
        exists|k: int| 0 <= k < n && p[k] == i,
{
    broadcast use vstd::seq_lib::seq_to_set_is_finite;
    vstd::set_lib::lemma_int_range(0, n);
    assert(p.no_duplicates()) by {
        assert forall|k: int, l: int| 0 <= k < p.len() && 0 <= l < p.len() && k != l implies p[k] != p[l] by {
            if k < l {
                assert(p[k] != p[l]);
            } else {
                assert(p[l] != p[k]);
            }
        }
    }
    p.unique_seq_to_set();
    assert(p.to_set().subset_of(vstd::set_lib::set_int_range(0, n)));
    vstd::set_lib::lemma_subset_equality(p.to_set(), vstd::set_lib::set_int_range(0, n));
    assert(vstd::set_lib::set_int_range(0, n).contains(i));
    assert(p.to_set().contains(i));
}

/// Two orders of the positions of `keys` that both list the keys strictly increasing
/// agree at every place.
proof fn lemma_sorted_orders_agree(keys: Seq<ModuleIdView>, a: Seq<int>, b: Seq<int>, k: int)
    requires
        is_permutation(a, keys.len() as int),
        is_permutation(b, keys.len() as int),
        forall|i: int, j: int| 0 <= i < j < keys.len() ==> id_lt(keys[#[trigger] a[i]], keys[#[trigger] a[j]]),
        forall|i: int, j: int| 0 <= i < j < keys.len() ==> id_lt(keys[#[trigger] b[i]], keys[#[trigger] b[j]]),
        0 <= k < keys.len(),
    ensures
        a[k] == b[k],
    decreases k,
{
    let n = keys.len() as int;
    assert forall|i: int| 0 <= i < k implies a[i] == b[i] by {
        lemma_sorted_orders_agree(keys, a, b, i);
    }
    lemma_permutation_covers(b, n, a[k]);
    let j = choose|j: int| 0 <= j < n && b[j] == a[k];
    lemma_permutation_covers(a, n, b[k]);
    let j2 = choose|j: int| 0 <= j < n && a[j] == b[k];
    if j < k {
        assert(a[j] == b[j]);
        assert(a[j] != a[k]);
    } else if j > k {
        assert(id_lt(keys[b[k]], keys[b[j]]));
        if j2 < k {
            assert(a[j2] == b[j2]);
            assert(b[j2] != b[k]);
        } else if j2 > k {
            assert(id_lt(keys[a[k]], keys[a[j2]]));
            lemma_id_lt_transitive(keys[a[k]], keys[b[k]], keys[a[k]]);
            lemma_id_lt_irreflexive(keys[a[k]]);
        }
    }
}

/// The order in which items are given does not change how they come out sorted, as long
/// as their ids are distinct: for `in2` holding the items of `in1` reordered by `q`, the
/// sorted outputs (each as [`sort_by_module_id`] states it) are the same.
pub proof fn law_sort_ignores_input_order<T>(
    in1: Seq<(ModuleIdView, T)>,
    in2: Seq<(ModuleIdView, T)>,
    q: Seq<int>,
    out1: Seq<T>,
    p1: Seq<int>,
    out2: Seq<T>,
    p2: Seq<int>,
)
    requires
        is_permutation(q, in1.len() as int),
        in2.len() == in1.len(),
        forall|k: int| 0 <= k < in2.len() ==> #[trigger] in2[k] == in1[q[k]],
        forall|i: int, j: int| 0 <= i < j < in1.len() ==> #[trigger] in1[i].0 != #[trigger] in1[j].0,
        stably_sorted_by_id(in1, out1, p1),
        stably_sorted_by_id(in2, out2, p2),
    ensures
        out1 == out2,
{
    let n = in1.len() as int;
    let keys = in1.map_values(|e: (ModuleIdView, T)| e.0);
    let b = Seq::new(n as nat, |k: int| q[p2[k]]);
    assert(is_permutation(p1, n));
    assert(is_permutation(b, n)) by {
        assert forall|k: int, l: int| 0 <= k < l < b.len() implies #[trigger] b[k] != #[trigger] b[l] by {
            assert(p2[k] != p2[l]);
            if p2[k] < p2[l] {
                assert(q[p2[k]] != q[p2[l]]);
            } else {
                assert(q[p2[l]] != q[p2[k]]);
            }
        }
    }
    assert forall|i: int, j: int| 0 <= i < j < keys.len() implies id_lt(keys[#[trigger] p1[i]], keys[#[trigger] p1[j]]) by {
        assert(!id_lt(in1[p1[j]].0, in1[p1[i]].0));
        if p1[i] < p1[j] {
            assert(in1[p1[i]].0 != in1[p1[j]].0);
        } else {
            assert(in1[p1[j]].0 != in1[p1[i]].0);
        }
        lemma_id_lt_total(in1[p1[i]].0, in1[p1[j]].0);
    }
    assert forall|i: int, j: int| 0 <= i < j < keys.len() implies id_lt(keys[#[trigger] b[i]], keys[#[trigger] b[j]]) by {
        assert(in2[p2[i]] == in1[b[i]]);
        assert(in2[p2[j]] == in1[b[j]]);
        assert(!id_lt(in2[p2[j]].0, in2[p2[i]].0));
        assert(b[i] != b[j]);
        if b[i] < b[j] {
            assert(in1[b[i]].0 != in1[b[j]].0);
        } else {
            assert(in1[b[j]].0 != in1[b[i]].0);
        }
        lemma_id_lt_total(in1[b[i]].0, in1[b[j]].0);
    }
    assert forall|k: int| 0 <= k < n implies out1[k] == out2[k] by {
        lemma_sorted_orders_agree(keys, p1, b, k);
        assert(in2[p2[k]] == in1[b[k]]);
    }
    assert(out1 =~= out2);
}

} // verus!
