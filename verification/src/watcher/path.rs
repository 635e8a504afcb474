//! Paths as the watcher sees them: a sequence of components.
use vstd::prelude::*;

verus! {

/// One component of a path, as `std::path::Component` describes it. A normal
/// component whose name is not valid UTF-8 keeps a lossy rendering of its name.
#[derive(Debug, PartialEq, Eq, Hash)]
pub enum PathComponent {
    Prefix(String),
    RootDir,
    CurDir,
    ParentDir,
    Normal(String),
    NonUnicode(String),
}

/// The mathematical value of a [`PathComponent`].
pub enum ComponentView {
    Prefix(Seq<char>),
    RootDir,
    CurDir,
    ParentDir,
    Normal(Seq<char>),
    NonUnicode(Seq<char>),
}

impl View for PathComponent {
    type V = ComponentView;

    open spec fn view(&self) -> ComponentView {
        match self {
            PathComponent::Prefix(s) => ComponentView::Prefix(s@),
            PathComponent::RootDir => ComponentView::RootDir,
            PathComponent::CurDir => ComponentView::CurDir,
            PathComponent::ParentDir => ComponentView::ParentDir,
            PathComponent::Normal(s) => ComponentView::Normal(s@),
            PathComponent::NonUnicode(s) => ComponentView::NonUnicode(s@),
        }
    }
}

/// What `std::path::Path::components` yields for the path written `path`.
pub uninterp spec fn std_path_components(path: Seq<char>) -> Seq<ComponentView>;

/// Splits `path` with `std::path::Path::components`.
#[verifier::external_body]
fn split_components(path: &str) -> (r: Vec<PathComponent>)
    ensures
        r@.map_values(|c: PathComponent| c@) == std_path_components(path@),
{
    std::path::Path::new(path).components().map(|c| match c {
        std::path::Component::Prefix(p) => PathComponent::Prefix(p.as_os_str().to_string_lossy().into_owned()),
        std::path::Component::RootDir => PathComponent::RootDir,
        std::path::Component::CurDir => PathComponent::CurDir,
        std::path::Component::ParentDir => PathComponent::ParentDir,
        std::path::Component::Normal(n) => PathComponent::Normal(n.to_string_lossy().into_owned()),
    }).collect()
}

/// The view of a sequence of components.
pub open spec fn components_view(v: Seq<PathComponent>) -> Seq<ComponentView> {
    v.map_values(|c: PathComponent| c@)
}

/// The parent of a path, as `std::path::Path::parent` defines it: the path without its
/// last component, unless that component is a root or a prefix or the path is empty.
pub open spec fn parent_of(p: Seq<ComponentView>) -> Option<Seq<ComponentView>> {
    if p.len() == 0 {
        None
    } else {
        match p.last() {
            ComponentView::Normal(_) | ComponentView::NonUnicode(_) | ComponentView::CurDir
            | ComponentView::ParentDir => Some(p.drop_last()),
            _ => None,
        }
    }
}

/// The names of the normal components of a path whose names are valid UTF-8, in order.
pub open spec fn normal_names(p: Seq<ComponentView>) -> Seq<Seq<char>>
    decreases p.len(),
{
    if p.len() == 0 {
        Seq::empty()
    } else {
        let rest = normal_names(p.drop_last());
        match p.last() {
            ComponentView::Normal(n) => rest.push(n),
            _ => rest,
        }
    }
}

/// `p` lies strictly below `dir`.
pub open spec fn strictly_below(p: Seq<ComponentView>, dir: Seq<ComponentView>) -> bool {
    dir.len() < p.len() && p.subrange(0, dir.len() as int) == dir
}

impl PathComponent {
    /// A copy of this component.
    pub fn duplicate(&self) -> (r: PathComponent)
        ensures
            r@ == self@,
    {
        match self {
            PathComponent::Prefix(s) => PathComponent::Prefix(s.clone()),
            PathComponent::RootDir => PathComponent::RootDir,
            PathComponent::CurDir => PathComponent::CurDir,
            PathComponent::ParentDir => PathComponent::ParentDir,
            PathComponent::Normal(s) => PathComponent::Normal(s.clone()),
            PathComponent::NonUnicode(s) => PathComponent::NonUnicode(s.clone()),
        }
    }

    /// Whether the two components are the same.
    pub fn same_as(&self, other: &PathComponent) -> (r: bool)
        ensures
            r == (self@ == other@),
    {
        match self {
            PathComponent::Prefix(a) => match other {
                PathComponent::Prefix(b) => a.eq(b),
                _ => false,
            },
            PathComponent::RootDir => match other {
                PathComponent::RootDir => true,
                _ => false,
            },
            PathComponent::CurDir => match other {
                PathComponent::CurDir => true,
                _ => false,
            },
            PathComponent::ParentDir => match other {
                PathComponent::ParentDir => true,
                _ => false,
            },
            PathComponent::Normal(a) => match other {
                PathComponent::Normal(b) => a.eq(b),
                _ => false,
            },
            PathComponent::NonUnicode(a) => match other {
                PathComponent::NonUnicode(b) => a.eq(b),
                _ => false,
            },
        }
    }
}

/// A path, held as its components.
#[derive(Debug, PartialEq, Eq, Hash)]
pub struct WatchPath {
    pub components: Vec<PathComponent>,
}

impl View for WatchPath {
    type V = Seq<ComponentView>;

    open spec fn view(&self) -> Seq<ComponentView> {
        components_view(self.components@)
    }
}

impl WatchPath {
    /// The path written `path`, split into components by the standard library.
    pub fn new(path: &str) -> (r: WatchPath)
        ensures
            r@ == std_path_components(path@),
    {
        let components = split_components(path);
        WatchPath { components }
    }

    /// The path made of `components`.
    pub fn from_components(components: Vec<PathComponent>) -> (r: WatchPath)
        ensures
            r@ == components_view(components@),
    {
        WatchPath { components }
    }

    /// A copy of this path.
    pub fn duplicate(&self) -> (r: WatchPath)
        ensures
            r@ == self@,
    {
        let mut components: Vec<PathComponent> = Vec::new();
        let mut i: usize = 0;
        while i < self.components.len()
            invariant
                i <= self.components@.len(),
                components@.len() == i,
                forall|k: int| 0 <= k < i ==> components@[k]@ == self.components@[k]@,
            decreases self.components@.len() - i,
        {
            components.push(self.components[i].duplicate());
            i = i + 1;
        }
        let r = WatchPath { components };
        assert(r@ =~= self@);
        r
    }

    /// Whether the two paths have the same components.
    pub fn same_as(&self, other: &WatchPath) -> (r: bool)
        ensures
            r == (self@ == other@),
    {
        if self.components.len() != other.components.len() {
            assert(self@.len() != other@.len());
            return false;
        }
        let mut i: usize = 0;
        while i < self.components.len()
            invariant
                i <= self.components@.len(),
                self.components@.len() == other.components@.len(),
                forall|k: int| 0 <= k < i ==> self.components@[k]@ == other.components@[k]@,
            decreases self.components@.len() - i,
        {
            if !self.components[i].same_as(&other.components[i]) {
                assert(self@[i as int] != other@[i as int]);
                return false;
            }
            i = i + 1;
        }
        assert(self@ =~= other@);
        true
    }

    /// The parent directory, as `std::path::Path::parent` computes it.
    pub fn parent(&self) -> (r: Option<WatchPath>)
        ensures
            match parent_of(self@) {
                Some(q) => r matches Some(rp) && rp@ == q,
                None => r is None,
            },
    {
        let n = self.components.len();
        if n == 0 {
            return None;
        }
        match &self.components[n - 1] {
            PathComponent::RootDir | PathComponent::Prefix(_) => None,
            _ => {
                let mut components: Vec<PathComponent> = Vec::new();
                let mut i: usize = 0;
                while i < n - 1
                    invariant
                        n == self.components@.len(),
                        n > 0,
                        i <= n - 1,
                        components@.len() == i,
                        forall|k: int| 0 <= k < i ==> components@[k]@ == self.components@[k]@,
                    decreases n - 1 - i,
                {
                    components.push(self.components[i].duplicate());
                    i = i + 1;
                }
                let r = WatchPath { components };
                assert(r@ =~= self@.drop_last());
                Some(r)
            }
        }
    }

    /// Whether this path lies strictly below `dir`.
    pub fn is_strictly_below(&self, dir: &WatchPath) -> (r: bool)
        ensures
            r == strictly_below(self@, dir@),
    {
        if dir.components.len() >= self.components.len() {
            return false;
        }
        let mut i: usize = 0;
        while i < dir.components.len()
            invariant
                dir.components@.len() < self.components@.len(),
                i <= dir.components@.len(),
                forall|k: int| 0 <= k < i ==> self.components@[k]@ == dir.components@[k]@,
            decreases dir.components@.len() - i,
        {
            if !self.components[i].same_as(&dir.components[i]) {
                assert(self@.subrange(0, dir@.len() as int)[i as int] != dir@[i as int]);
                return false;
            }
            i = i + 1;
        }
        assert(self@.subrange(0, dir@.len() as int) =~= dir@);
        true
    }

    /// The names of the normal components whose names are valid UTF-8, in order.
    pub fn normal_names(&self) -> (r: Vec<String>)
        ensures
            r@.map_values(|s: String| s@) == normal_names(self@),
    {
        let mut names: Vec<String> = Vec::new();
        let mut i: usize = 0;
        while i < self.components.len()
            invariant
                i <= self.components@.len(),
                names@.map_values(|s: String| s@) == normal_names(self@.subrange(0, i as int)),
            decreases self.components@.len() - i,
        {
            assert(self@.subrange(0, i + 1).drop_last() =~= self@.subrange(0, i as int));
            match &self.components[i] {
                PathComponent::Normal(s) => {
                    names.push(s.clone());
                    assert(names@.map_values(|s: String| s@) =~= normal_names(self@.subrange(0, i as int)).push(s@));
                },
                _ => {},
            }
            i = i + 1;
        }
        assert(self@.subrange(0, self@.len() as int) =~= self@);
        names
    }
}

} // verus!
