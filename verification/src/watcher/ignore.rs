//! Which paths the watcher ignores.
use vstd::prelude::*;
use vstd::string::StringExecFns;
use vstd::string::StrSliceExecFns;
use crate::regex_support::{PatternSet, regex_set_is_match, string_views};
use crate::text::str_equal;
use crate::watcher::path::{ComponentView, WatchPath, normal_names};

verus! {

/// The name of the directory that holds installed packages.
pub open spec fn node_modules_name() -> Seq<char> {
    "node_modules"@
}

/// `name` begins with `@`, the mark of a scoped package.
pub open spec fn is_scope_name(name: Seq<char>) -> bool {
    name.len() > 0 && name[0] == '@'
}

/// Scans the names of a path from position `i` on, for the package that follows the
/// last `node_modules` directory, as `matches_node_module_package` does: `matched` is
/// the answer so far.
pub open spec fn package_scan(names: Seq<Seq<char>>, i: int, matched: bool, patterns: Seq<Seq<char>>) -> bool
    decreases names.len() - i,
{
    if i < 0 || i >= names.len() {
        matched
    } else if names[i] != node_modules_name() {
        package_scan(names, i + 1, matched, patterns)
    } else if i + 1 >= names.len() {
        false
    } else if is_scope_name(names[i + 1]) {
        if i + 2 < names.len() {
            package_scan(
                names,
                i + 3,
                regex_set_is_match(patterns, names[i + 1] + "/"@ + names[i + 2]),
                patterns,
            )
        } else {
            false
        }
    } else {
        package_scan(names, i + 2, regex_set_is_match(patterns, names[i + 1]), patterns)
    }
}

/// The package below the last `node_modules` directory of `path` (`scope/name` for a
/// scoped package) matches one of `patterns`.
pub open spec fn matches_package(path: Seq<ComponentView>, patterns: Seq<Seq<char>>) -> bool {
    package_scan(normal_names(path), 0, false, patterns)
}

/// `name` is one of the ignored names, and it is not a `node_modules` directory that
/// the package patterns opt back in.
pub open spec fn name_is_ignored(name: Seq<char>, ignored: Seq<Seq<char>>, watch_node_module: bool) -> bool {
    &&& exists|i: int| 0 <= i < ignored.len() && ignored[i] == name
    &&& (name != node_modules_name() || !watch_node_module)
}

/// Whether the package patterns opt `path` back in.
pub open spec fn package_opted_in(path: Seq<ComponentView>, patterns: Option<Seq<Seq<char>>>) -> bool {
    match patterns {
        Some(p) => matches_package(path, p),
        None => false,
    }
}

/// The watcher ignores `path`: some normal component of it carries an ignored name.
pub open spec fn ignores_path(path: Seq<ComponentView>, ignored: Seq<Seq<char>>, patterns: Option<Seq<Seq<char>>>) -> bool {
    &&& ignored.len() > 0
    &&& exists|j: int| 0 <= j < path.len() && (#[trigger] path[j] matches ComponentView::Normal(n)
        && name_is_ignored(n, ignored, package_opted_in(path, patterns)))
}

/// The texts of the patterns of an optional set.
pub open spec fn optional_patterns(set: Option<&PatternSet>) -> Option<Seq<Seq<char>>> {
    match set {
        Some(s) => Some(s.patterns()),
        None => None,
    }
}

/// Whether the package below the last `node_modules` directory of `path` matches one of
/// the patterns of `regexes`.
pub fn matches_node_module_package(path: &WatchPath, regexes: &PatternSet) -> (r: bool)
    ensures
        r == matches_package(path@, regexes.patterns()),
{
    let names = path.normal_names();
    let ghost nv = names@.map_values(|s: String| s@);
    let mut matched = false;
    let mut i: usize = 0;
    while i < names.len()
        invariant
            nv == names@.map_values(|s: String| s@),
            nv == normal_names(path@),
            i <= names@.len() + 2,
            package_scan(nv, 0, false, regexes.patterns()) == package_scan(nv, i as int, matched, regexes.patterns()),
        decreases names@.len() + 2 - i,
    {
        assert(nv[i as int] == names@[i as int]@);
        if !str_equal(names[i].as_str(), "node_modules") {
            i = i + 1;
            continue;
        }
        if i + 1 >= names.len() {
            return false;
        }
        let first = &names[i + 1];
        assert(nv[i + 1] == first@);
        let scoped = first.as_str().unicode_len() > 0 && first.as_str().get_char(0) == '@';
        if scoped {
            if i + 2 < names.len() {
                let mut joined = first.clone();
                joined.append("/");
                joined.append(names[i + 2].as_str());
                assert(nv[i + 2] == names@[i + 2]@);
                matched = regexes.is_match(joined.as_str());
                i = i + 3;
            } else {
                return false;
            }
        } else {
            matched = regexes.is_match(first.as_str());
            i = i + 2;
        }
    }
    matched
}

/// Whether `name` is one of `ignored`.
fn is_listed(name: &String, ignored: &Vec<String>) -> (r: bool)
    ensures
        r == (exists|i: int| 0 <= i < ignored@.len() && string_views(ignored@)[i] == name@),
{
    let mut i: usize = 0;
    while i < ignored.len()
        invariant
            i <= ignored@.len(),
            forall|k: int| 0 <= k < i ==> string_views(ignored@)[k] != name@,
        decreases ignored@.len() - i,
    {
        if ignored[i].eq(name) {
            assert(string_views(ignored@)[i as int] == name@);
            return true;
        }
        i = i + 1;
    }
    false
}

/// Whether the watcher should ignore `path`, given the ignored component names and the
/// package patterns that opt `node_modules` entries back in.
pub fn should_ignore_path(path: &WatchPath, ignored_paths: &Vec<String>, node_modules_regexes: Option<&PatternSet>) -> (r: bool)
    ensures
        r == ignores_path(path@, string_views(ignored_paths@), optional_patterns(node_modules_regexes)),
{
    let ghost ignored = string_views(ignored_paths@);
    let ghost patterns = optional_patterns(node_modules_regexes);
    if ignored_paths.len() == 0 {
        return false;
    }
    let watch_node_module = match node_modules_regexes {
        Some(regexes) => matches_node_module_package(path, regexes),
        None => false,
    };
    assert(watch_node_module == package_opted_in(path@, patterns));
    let mut j: usize = 0;
    while j < path.components.len()
        invariant
            j <= path.components@.len(),
            ignored == string_views(ignored_paths@),
            patterns == optional_patterns(node_modules_regexes),
            ignored.len() > 0,
            watch_node_module == package_opted_in(path@, patterns),
            forall|k: int| 0 <= k < j ==> !(#[trigger] path@[k] matches ComponentView::Normal(n)
                && name_is_ignored(n, ignored, watch_node_module)),
        decreases path.components@.len() - j,
    {
        match &path.components[j] {
            crate::watcher::path::PathComponent::Normal(name) => {
                let listed = is_listed(name, ignored_paths);
                if listed && (!str_equal(name.as_str(), "node_modules") || !watch_node_module) {
                    assert(path@[j as int] matches ComponentView::Normal(n) && name_is_ignored(n, ignored, watch_node_module));
                    assert(name_is_ignored(name@, ignored, package_opted_in(path@, patterns)));
                    assert(ignores_path(path@, ignored, patterns));
                    return true;
                }
            },
            _ => {},
        }
        j = j + 1;
    }
    false
}

} // verus!
