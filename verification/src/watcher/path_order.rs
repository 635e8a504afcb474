//! The order of paths: component by component, kinds in the order the standard library
//! gives them (prefixes, roots, current and parent directories, names), names by their
//! characters, which for UTF-8 names is the order of their bytes. Names that are not
//! valid UTF-8 are kept by a lossy rendering, and come after the others.
use vstd::prelude::*;
use crate::text::{chars_of, lemma_text_lt_irreflexive, lemma_text_lt_total, lemma_text_lt_transitive, text_less, text_lt};
use crate::watcher::path::{ComponentView, PathComponent, WatchPath};

verus! {

/// The rank of a component's kind: prefixes, then roots, current and parent directories,
/// then names (names that are not valid UTF-8 after the others).
pub open spec fn kind_rank(c: ComponentView) -> int {
    match c {
        ComponentView::Prefix(_) => 0,
        ComponentView::RootDir => 1,
        ComponentView::CurDir => 2,
        ComponentView::ParentDir => 3,
        ComponentView::Normal(_) => 4,
        ComponentView::NonUnicode(_) => 5,
    }
}

/// The text a component carries, if any.
pub open spec fn kind_text(c: ComponentView) -> Seq<char> {
    match c {
        ComponentView::Prefix(t) => t,
        ComponentView::Normal(t) => t,
        ComponentView::NonUnicode(t) => t,
        _ => Seq::empty(),
    }
}

/// Whether component `a` comes before component `b`: by kind, then by text.
pub open spec fn component_lt(a: ComponentView, b: ComponentView) -> bool {
    kind_rank(a) < kind_rank(b) || (kind_rank(a) == kind_rank(b) && text_lt(kind_text(a), kind_text(b)))
}

/// Whether path `a` comes before path `b`: at the first component where they differ, or
/// `a` is a proper beginning of `b`.
pub open spec fn path_lt(a: Seq<ComponentView>, b: Seq<ComponentView>) -> bool
    decreases a.len(),
{
    if a.len() == 0 {
        b.len() > 0
    } else if b.len() == 0 {
        false
    } else if a[0] != b[0] {
        component_lt(a[0], b[0])
    } else {
        path_lt(a.drop_first(), b.drop_first())
    }
}

proof fn lemma_component_view_eq(a: ComponentView, b: ComponentView)
    requires
        kind_rank(a) == kind_rank(b),
        kind_text(a) == kind_text(b),
    ensures
        a == b,
{
}

proof fn lemma_component_lt_irreflexive(a: ComponentView)
    ensures
        !component_lt(a, a),
{
    lemma_text_lt_irreflexive(kind_text(a));
}

proof fn lemma_component_lt_transitive(a: ComponentView, b: ComponentView, c: ComponentView)
    requires
        component_lt(a, b),
        component_lt(b, c),
    ensures
        component_lt(a, c),
{
    if kind_rank(a) == kind_rank(b) && kind_rank(b) == kind_rank(c) {
        lemma_text_lt_transitive(kind_text(a), kind_text(b), kind_text(c));
    }
}

proof fn lemma_component_lt_total(a: ComponentView, b: ComponentView)
    requires
        a != b,
    ensures
        component_lt(a, b) || component_lt(b, a),
{
    if kind_rank(a) == kind_rank(b) {
        if kind_text(a) == kind_text(b) {
            lemma_component_view_eq(a, b);
        } else {
            lemma_text_lt_total(kind_text(a), kind_text(b));
        }
    }
}

/// `path_lt` is irreflexive.
pub proof fn lemma_path_lt_irreflexive(a: Seq<ComponentView>)
    ensures
        !path_lt(a, a),
    decreases a.len(),
{
    if a.len() > 0 {
        lemma_path_lt_irreflexive(a.drop_first());
    }
}

/// `path_lt` is transitive.
pub proof fn lemma_path_lt_transitive(a: Seq<ComponentView>, b: Seq<ComponentView>, c: Seq<ComponentView>)
    requires
        path_lt(a, b),
        path_lt(b, c),
    ensures
        path_lt(a, c),
    decreases a.len(),
{
    if a.len() > 0 && b.len() > 0 && c.len() > 0 {
        if a[0] == b[0] && b[0] == c[0] {
            lemma_path_lt_transitive(a.drop_first(), b.drop_first(), c.drop_first());
        } else if a[0] != b[0] && b[0] != c[0] {
            lemma_component_lt_transitive(a[0], b[0], c[0]);
            if a[0] == c[0] {
                lemma_component_lt_transitive(a[0], b[0], a[0]);
                lemma_component_lt_irreflexive(a[0]);
            }
        }
    }
}

/// `path_lt` orders any two different paths.
pub proof fn lemma_path_lt_total(a: Seq<ComponentView>, b: Seq<ComponentView>)
    requires
        a != b,
    ensures
        path_lt(a, b) || path_lt(b, a),
    decreases a.len(),
{
    if a.len() > 0 && b.len() > 0 {
        if a[0] == b[0] {
            if a.drop_first() == b.drop_first() {
                assert(a =~= seq![a[0]] + a.drop_first());
                assert(b =~= seq![b[0]] + b.drop_first());
            }
            lemma_path_lt_total(a.drop_first(), b.drop_first());
        } else {
            lemma_component_lt_total(a[0], b[0]);
        }
    } else if a.len() == 0 && b.len() == 0 {
        assert(a =~= b);
    }
}

/// The kind rank of a component.
fn rank_of(c: &PathComponent) -> (r: u8)
    ensures
        r as int == kind_rank(c@),
{
    match c {
        PathComponent::Prefix(_) => 0,
        PathComponent::RootDir => 1,
        PathComponent::CurDir => 2,
        PathComponent::ParentDir => 3,
        PathComponent::Normal(_) => 4,
        PathComponent::NonUnicode(_) => 5,
    }
}

/// The text of a component, as characters.
fn text_of(c: &PathComponent) -> (r: Vec<char>)
    ensures
        r@ == kind_text(c@),
{
    match c {
        PathComponent::Prefix(t) => chars_of(t.as_str()),
        PathComponent::Normal(t) => chars_of(t.as_str()),
        PathComponent::NonUnicode(t) => chars_of(t.as_str()),
        _ => Vec::new(),
    }
}

/// Whether component `a` comes before component `b`.
fn component_less(a: &PathComponent, b: &PathComponent) -> (r: bool)
    ensures
        r == component_lt(a@, b@),
{
    let ra = rank_of(a);
    let rb = rank_of(b);
    if ra != rb {
        return ra < rb;
    }
    text_less(&text_of(a), &text_of(b))
}

impl WatchPath {
    /// Whether this path comes before `other`.
    pub fn is_before(&self, other: &WatchPath) -> (r: bool)
        ensures
            r == path_lt(self@, other@),
    {
        let a = &self.components;
        let b = &other.components;
        let mut i: usize = 0;
        assert(self@.subrange(0, self@.len() as int) =~= self@);
        assert(other@.subrange(0, other@.len() as int) =~= other@);
        while i < a.len() && i < b.len()
            invariant
                self@.len() == a@.len(),
                other@.len() == b@.len(),
                forall|k: int| 0 <= k < a@.len() ==> #[trigger] self@[k] == a@[k]@,
                forall|k: int| 0 <= k < b@.len() ==> #[trigger] other@[k] == b@[k]@,
                i <= a@.len(),
                i <= b@.len(),
                path_lt(self@, other@) == path_lt(self@.subrange(i as int, self@.len() as int), other@.subrange(i as int, other@.len() as int)),
            decreases a@.len() - i,
        {
            let ghost sa = self@.subrange(i as int, self@.len() as int);
            let ghost sb = other@.subrange(i as int, other@.len() as int);
            assert(sa[0] == self@[i as int]);
            assert(sb[0] == other@[i as int]);
            if !a[i].same_as(&b[i]) {
                return component_less(&a[i], &b[i]);
            }
            assert(sa.drop_first() =~= self@.subrange(i + 1, self@.len() as int));
            assert(sb.drop_first() =~= other@.subrange(i + 1, other@.len() as int));
            i = i + 1;
        }
        i < b.len()
    }
}

} // verus!
