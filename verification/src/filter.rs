//! Ignore patterns for watched paths, matched against each path component.
use vstd::prelude::*;
use crate::text::{chars_of, ends_with, starts_with, trim_end, seq_ends_with, seq_starts_with, trim_end_char};
use crate::tree::{path_parts, views};

verus! {

/// What `Path::components` yields on Unix for a path with these
/// characters, each component taken as text: `/` for a leading root, `.`
/// for a leading current directory (a path that is `.` or starts with
/// `./`), then the `/`-separated parts, with repeated separators and every
/// other `.` normalized away.
pub open spec fn path_components(s: Seq<char>) -> Seq<Seq<char>> {
    let rooted = s.len() > 0 && s[0] == '/';
    let current = !rooted && s.len() > 0 && s[0] == '.' && (s.len() == 1 || s[1] == '/');
    (if rooted { seq!["/"@] } else { Seq::empty() }) + (if current { seq!["."@] } else { Seq::empty() })
        + path_parts(s).filter(|p: Seq<char>| p != "."@)
}

/// What `Path::file_name` gives: the last component when it is a name
/// (not the root, `.` or `..`).
pub open spec fn file_name_of(path: Seq<char>) -> Option<Seq<char>> {
    let cs = path_components(path);
    if cs.len() > 0 && cs.last() != "/"@ && cs.last() != "."@ && cs.last() != ".."@ {
        Some(cs.last())
    } else {
        None
    }
}

/// `std::path::Path::components`, each component converted to a `String`
/// (lossily; the text of a `&str` converts unchanged).  The contract states
/// the split as the documentation of `Path::components` gives it on Unix:
/// see `path_components`.
#[verifier::external_body]
pub(crate) fn components_of(path: &str) -> (r: Vec<String>)
    ensures
        views(r@) == path_components(path@),
{
    std::path::Path::new(path).components().map(|c| c.as_os_str().to_string_lossy().to_string()).collect()
}

/// A path component matches an ignore pattern: trailing `/` in the
/// pattern are dropped; then `*suffix` matches components ending in
/// `suffix`, `prefix*` matches components starting with `prefix`, and
/// anything else matches only itself.
pub open spec fn component_matches(component: Seq<char>, pattern: Seq<char>) -> bool {
    let p = trim_end_char(pattern, '/');
    if p.len() > 1 && p[0] == '*' {
        seq_ends_with(component, p.drop_first())
    } else if p.len() > 1 && p.last() == '*' {
        seq_starts_with(component, p.drop_last())
    } else {
        component == p
    }
}

/// Some component of `path` matches some pattern.
pub open spec fn ignored_by(patterns: Seq<Seq<char>>, path: Seq<char>) -> bool {
    exists|i: int, j: int|
        0 <= i < path_components(path).len() && 0 <= j < patterns.len() && component_matches(
            #[trigger] path_components(path)[i],
            #[trigger] patterns[j],
        )
}

/// Path filter that matches against ignore patterns.
#[derive(Debug, Clone)]
pub struct PathFilter {
    /// Patterns that cause a path to be ignored.
    ignore_patterns: Vec<String>,
    /// Maximum file size in bytes (files larger are skipped).
    max_file_size: u64,
}

impl View for PathFilter {
    type V = (Seq<Seq<char>>, u64);

    /// The patterns as text and the size limit.
    closed spec fn view(&self) -> (Seq<Seq<char>>, u64) {
        (views(self.ignore_patterns@), self.max_file_size)
    }
}

/// A pattern that could reach outside the watched tree: one of its path
/// components is `..`.
pub open spec fn traverses_parent(pattern: Seq<char>) -> bool {
    path_components(pattern).contains(".."@)
}

/// The patterns that a filter keeps, in their order: those without a `..`
/// component.
pub open spec fn safe_patterns(patterns: Seq<Seq<char>>) -> Seq<Seq<char>>
    decreases patterns.len(),
{
    if patterns.len() == 0 {
        Seq::empty()
    } else {
        let rest = safe_patterns(patterns.drop_last());
        if traverses_parent(patterns.last()) {
            rest
        } else {
            rest.push(patterns.last())
        }
    }
}

/// Patterns are validated on construction: no pattern that a filter keeps
/// has a `..` component, and every kept pattern was given.
pub proof fn law_kept_patterns_stay_inside(patterns: Seq<Seq<char>>)
    ensures
        forall|i: int| 0 <= i < safe_patterns(patterns).len() ==> !traverses_parent(#[trigger] safe_patterns(patterns)[i])
            && patterns.contains(safe_patterns(patterns)[i]),
    decreases patterns.len(),
{
    if patterns.len() > 0 {
        law_kept_patterns_stay_inside(patterns.drop_last());
        let rest = safe_patterns(patterns.drop_last());
        assert forall|i: int| 0 <= i < safe_patterns(patterns).len() implies !traverses_parent(#[trigger] safe_patterns(patterns)[i])
            && patterns.contains(safe_patterns(patterns)[i]) by {
            if i < rest.len() {
                let k = choose|k: int| 0 <= k < patterns.drop_last().len() && patterns.drop_last()[k] == rest[i];
                assert(patterns[k] == rest[i]);
            } else {
                assert(patterns[patterns.len() - 1] == patterns.last());
            }
        }
    }
}

/// Whether `pattern` has a `..` component.
fn has_parent_component(pattern: &str) -> (r: bool)
    ensures
        r == traverses_parent(pattern@),
{
    let comps = components_of(pattern);
    let n = comps.len();
    for i in 0..n
        invariant
            n == comps@.len(),
            views(comps@) == path_components(pattern@),
            forall|k: int| 0 <= k < i ==> path_components(pattern@)[k] != ".."@,
    {
        assert(path_components(pattern@)[i as int] == comps@[i as int]@);
        if crate::text::str_eq(comps[i].as_str(), "..") {
            return true;
        }
    }
    false
}

impl PathFilter {
    /// A filter with the given patterns and size limit.  Patterns are
    /// checked here against path traversal: one with a `..` component is
    /// dropped; the others are kept in their order.
    pub fn new(ignore_patterns: Vec<String>, max_file_size: u64) -> (r: Self)
        ensures
            r@ == (safe_patterns(views(ignore_patterns@)), max_file_size),
    {
        let mut kept: Vec<String> = Vec::new();
        let n = ignore_patterns.len();
        for i in 0..n
            invariant
                n == ignore_patterns@.len(),
                views(kept@) == safe_patterns(views(ignore_patterns@).take(i as int)),
        {
            let ghost all = views(ignore_patterns@);
            assert(all.take(i + 1).drop_last() == all.take(i as int));
            assert(all.take(i + 1).last() == ignore_patterns@[i as int]@);
            if !has_parent_component(ignore_patterns[i].as_str()) {
                kept.push(ignore_patterns[i].clone());
            }
        }
        assert(views(ignore_patterns@).take(n as int) == views(ignore_patterns@));
        PathFilter { ignore_patterns: kept, max_file_size }
    }

    /// True when some component of `path` matches some ignore pattern, so
    /// that pattern `node_modules` ignores `foo/node_modules/bar.js`.
    pub fn should_ignore(&self, path: &str) -> (r: bool)
        ensures
            r == ignored_by(self@.0, path@),
    {
        let comps = components_of(path);
        let nc = comps.len();
        let np = self.ignore_patterns.len();
        for i in 0..nc
            invariant
                nc == comps@.len(),
                np == self.ignore_patterns@.len(),
                views(comps@) == path_components(path@),
                forall|a: int, b: int|
                    0 <= a < i && 0 <= b < np ==> !component_matches(
                        #[trigger] path_components(path@)[a],
                        #[trigger] self@.0[b],
                    ),
        {
            for j in 0..np
                invariant
                    nc == comps@.len(),
                    np == self.ignore_patterns@.len(),
                    i < nc,
                    views(comps@) == path_components(path@),
                    forall|a: int, b: int|
                        0 <= a < i && 0 <= b < np ==> !component_matches(
                            #[trigger] path_components(path@)[a],
                            #[trigger] self@.0[b],
                        ),
                    forall|b: int| 0 <= b < j ==> !component_matches(
                        path_components(path@)[i as int],
                        #[trigger] self@.0[b],
                    ),
            {
                if Self::matches_component(comps[i].as_str(), self.ignore_patterns[j].as_str()) {
                    assert(path_components(path@)[i as int] == comps@[i as int]@);
                    assert(self@.0[j as int] == self.ignore_patterns@[j as int]@);
                    assert(component_matches(path_components(path@)[i as int], self@.0[j as int]));
                    return true;
                }
            }
        }
        false
    }

    /// True when `size` is over the limit.
    pub fn exceeds_max_size(&self, size: u64) -> (r: bool)
        ensures
            r == (size > self@.1),
    {
        size > self.max_file_size
    }

    /// The size limit in bytes.
    pub fn max_file_size(&self) -> (r: u64)
        ensures
            r == self@.1,
    {
        self.max_file_size
    }

    /// The ignore patterns.
    pub fn ignore_patterns(&self) -> (r: &[String])
        ensures
            views(r@) == self@.0,
    {
        self.ignore_patterns.as_slice()
    }

    /// Pattern matching for one component; see `component_matches`.
    fn matches_component(component: &str, pattern: &str) -> (r: bool)
        ensures
            r == component_matches(component@, pattern@),
    {
        let pc = chars_of(pattern);
        let p = trim_end(pc.as_slice(), '/');
        let c = chars_of(component);
        if p.len() > 1 && p[0] == '*' {
            let mut suffix: Vec<char> = Vec::new();
            for k in 1..p.len()
                invariant
                    suffix@ == p@.subrange(1, k as int),
            {
                suffix.push(p[k]);
                assert(p@.subrange(1, k + 1) == p@.subrange(1, k as int).push(p@[k as int]));
            }
            assert(p@.subrange(1, p@.len() as int) == p@.drop_first());
            ends_with(c.as_slice(), suffix.as_slice())
        } else if p.len() > 1 && p[p.len() - 1] == '*' {
            let mut prefix: Vec<char> = Vec::new();
            for k in 0..p.len() - 1
                invariant
                    p@.len() > 1,
                    prefix@ == p@.take(k as int),
            {
                prefix.push(p[k]);
                assert(p@.take(k + 1) == p@.take(k as int).push(p@[k as int]));
            }
            assert(p@.take(p@.len() - 1) == p@.drop_last());
            starts_with(c.as_slice(), prefix.as_slice())
        } else {
            crate::text::slice_eq(c.as_slice(), p.as_slice())
        }
    }
}

/// The patterns ignored by default.
pub open spec fn default_patterns() -> Seq<Seq<char>> {
    seq![
        ".git"@,
        "node_modules"@,
        "target"@,
        "dist"@,
        ".next"@,
        "__pycache__"@,
        ".DS_Store"@,
        "*.swp"@,
        "*.tmp"@,
        "*.pyc"@,
    ]
}

impl Default for PathFilter {
    /// Version control, dependency, build and editor-swap paths are
    /// ignored; files over 10 MiB are skipped.
    fn default() -> (r: Self)
        ensures
            r@ == (default_patterns(), 10485760u64),
    {
        let mut p: Vec<String> = Vec::new();
        p.push(".git".to_owned());
        p.push("node_modules".to_owned());
        p.push("target".to_owned());
        p.push("dist".to_owned());
        p.push(".next".to_owned());
        p.push("__pycache__".to_owned());
        p.push(".DS_Store".to_owned());
        p.push("*.swp".to_owned());
        p.push("*.tmp".to_owned());
        p.push("*.pyc".to_owned());
        assert(views(p@) == default_patterns());
        PathFilter { ignore_patterns: p, max_file_size: 10 * 1024 * 1024 }
    }
}

/// A pattern `*x` (with `x` non-empty and not ending in `/`) matches a
/// component exactly when the component ends with `x`: its last `x.len()`
/// characters are those of `x`.  A component that holds `x` anywhere else
/// (such as `app.log.gz` for `*.log`) does not match.
pub proof fn law_suffix_pattern(c: Seq<char>, x: Seq<char>)
    requires
        x.len() >= 1,
        x.last() != '/',
    ensures
        component_matches(c, seq!['*'] + x) <==> (x.len() <= c.len() && forall|i: int|
            0 <= i < x.len() ==> #[trigger] c[c.len() - x.len() + i] == x[i]),
{
    let p = seq!['*'] + x;
    assert(p.last() == x.last());
    assert(trim_end_char(p, '/') == p);
    assert(p.drop_first() =~= x);
    if x.len() <= c.len() {
        let t = c.skip(c.len() - x.len());
        if forall|i: int| 0 <= i < x.len() ==> #[trigger] c[c.len() - x.len() + i] == x[i] {
            assert forall|i: int| 0 <= i < x.len() implies t[i] == x[i] by {
                assert(c[c.len() - x.len() + i] == x[i]);
            }
            assert(t =~= x);
        }
        if t == x {
            assert forall|i: int| 0 <= i < x.len() implies #[trigger] c[c.len() - x.len() + i] == x[i] by {
                assert(t[i] == x[i]);
            }
        }
    }
}

/// A pattern `x*` (with `x` non-empty and not starting with `*`) matches a
/// component exactly when the component starts with `x`.
pub proof fn law_prefix_pattern(c: Seq<char>, x: Seq<char>)
    requires
        x.len() >= 1,
        x[0] != '*',
    ensures
        component_matches(c, x + seq!['*']) <==> (x.len() <= c.len() && forall|i: int|
            0 <= i < x.len() ==> #[trigger] c[i] == x[i]),
{
    let p = x + seq!['*'];
    assert(p.last() == '*');
    assert(trim_end_char(p, '/') == p);
    assert(p[0] == x[0]);
    assert(p.drop_last() =~= x);
    if x.len() <= c.len() {
        let t = c.take(x.len() as int);
        if forall|i: int| 0 <= i < x.len() ==> #[trigger] c[i] == x[i] {
            assert(t =~= x);
        }
        if t == x {
            assert forall|i: int| 0 <= i < x.len() implies #[trigger] c[i] == x[i] by {
                assert(t[i] == x[i]);
            }
        }
    }
}

/// A pattern without a wildcard at either end and without a trailing `/`
/// matches only the component equal to it.
pub proof fn law_plain_pattern(c: Seq<char>, p: Seq<char>)
    requires
        p.len() >= 1,
        p.last() != '/',
        p.len() > 1 ==> p[0] != '*' && p.last() != '*',
    ensures
        component_matches(c, p) <==> c == p,
{
    assert(trim_end_char(p, '/') == p);
}

/// A pattern with a trailing slash matches exactly what it matches
/// without one, and a filter without patterns ignores nothing.
pub proof fn law_trailing_slash_and_empty(component: Seq<char>, pattern: Seq<char>, path: Seq<char>)
    ensures
        component_matches(component, pattern.push('/')) == component_matches(component, pattern),
        !ignored_by(Seq::empty(), path),
{
    assert(pattern.push('/').drop_last() == pattern);
}

} // verus!
