//! Attribution of file changes to their source: an explicit override, git
//! activity, build output, or the user.
use vstd::prelude::*;
use crate::event::Source;
use crate::text::{
    chars_of, contains, ends_with, seq_contains, seq_ends_with, seq_starts_with, starts_with,
    trim_end, trim_end_char,
};
use crate::tree::views;

verus! {

/// Configuration for build artifact detection.
#[derive(Debug, Clone)]
pub struct BuildPatterns {
    /// Path patterns that indicate build artifacts.
    pub patterns: Vec<String>,
}

/// One build pattern matches a path: `dir/` patterns match paths starting
/// with `dir` or containing `dir/`; `*.ext` patterns match paths ending
/// in `ext`; any other pattern matches paths containing it.
pub open spec fn build_pattern_matches(path: Seq<char>, pattern: Seq<char>) -> bool {
    if pattern.len() > 0 && pattern.last() == '/' {
        let prefix = trim_end_char(pattern, '/');
        seq_starts_with(path, prefix) || seq_contains(path, prefix.push('/'))
    } else if seq_starts_with(pattern, "*."@) {
        seq_ends_with(path, pattern.skip(2))
    } else {
        seq_contains(path, pattern)
    }
}

/// Some pattern matches the path.
pub open spec fn build_matches(patterns: Seq<Seq<char>>, path: Seq<char>) -> bool {
    exists|j: int| 0 <= j < patterns.len() && build_pattern_matches(path, #[trigger] patterns[j])
}

/// The patterns used when none are configured.
pub open spec fn default_build_patterns() -> Seq<Seq<char>> {
    seq![
        "dist/"@, "build/"@, "target/"@, "out/"@, ".next/"@, ".nuxt/"@, "node_modules/.cache/"@,
        ".cache/"@, "coverage/"@, "*.o"@, "*.so"@, "*.dylib"@, "*.dll"@, "*.exe"@, "*.a"@,
        "*.lib"@, "*.pyc"@, "*.pyo"@, "__pycache__/"@, ".pytest_cache/"@, ".venv/"@, "venv/"@,
        "*.rmeta"@, "*.rlib"@,
    ]
}

impl Default for BuildPatterns {
    /// Output directories of common build tools, caches, virtual
    /// environments, and compiled-artifact extensions.
    fn default() -> (r: Self)
        ensures
            views(r.patterns@) == default_build_patterns(),
    {
        let mut p: Vec<String> = Vec::new();
        p.push("dist/".to_owned());
        p.push("build/".to_owned());
        p.push("target/".to_owned());
        p.push("out/".to_owned());
        p.push(".next/".to_owned());
        p.push(".nuxt/".to_owned());
        p.push("node_modules/.cache/".to_owned());
        p.push(".cache/".to_owned());
        p.push("coverage/".to_owned());
        p.push("*.o".to_owned());
        p.push("*.so".to_owned());
        p.push("*.dylib".to_owned());
        p.push("*.dll".to_owned());
        p.push("*.exe".to_owned());
        p.push("*.a".to_owned());
        p.push("*.lib".to_owned());
        p.push("*.pyc".to_owned());
        p.push("*.pyo".to_owned());
        p.push("__pycache__/".to_owned());
        p.push(".pytest_cache/".to_owned());
        p.push(".venv/".to_owned());
        p.push("venv/".to_owned());
        p.push("*.rmeta".to_owned());
        p.push("*.rlib".to_owned());
        assert(views(p@) == default_build_patterns());
        BuildPatterns { patterns: p }
    }
}

/// Whether one pattern matches (see `build_pattern_matches`).
fn pattern_matches(path: &[char], pattern: &str) -> (r: bool)
    ensures
        r == build_pattern_matches(path@, pattern@),
{
    let p = chars_of(pattern);
    let star_dot = chars_of("*.");
    proof {
        reveal_strlit("*.");
    }
    if p.len() > 0 && p[p.len() - 1] == '/' {
        let prefix = trim_end(p.as_slice(), '/');
        if starts_with(path, prefix.as_slice()) {
            return true;
        }
        let mut with_slash = prefix.clone();
        with_slash.push('/');
        contains(path, with_slash.as_slice())
    } else if starts_with(p.as_slice(), star_dot.as_slice()) {
        let mut ext: Vec<char> = Vec::new();
        for k in 2..p.len()
            invariant
                p@.len() >= 2,
                ext@ == p@.subrange(2, k as int),
        {
            ext.push(p[k]);
            assert(p@.subrange(2, k + 1) == p@.subrange(2, k as int).push(p@[k as int]));
        }
        assert(p@.subrange(2, p@.len() as int) == p@.skip(2));
        ends_with(path, ext.as_slice())
    } else {
        contains(path, p.as_slice())
    }
}

impl BuildPatterns {
    /// The path looks like a build artifact.
    pub fn matches(&self, path: &str) -> (r: bool)
        ensures
            r == build_matches(views(self.patterns@), path@),
    {
        let pc = chars_of(path);
        let n = self.patterns.len();
        for j in 0..n
            invariant
                n == self.patterns@.len(),
                pc@ == path@,
                forall|k: int| 0 <= k < j ==> !build_pattern_matches(path@, #[trigger] views(self.patterns@)[k]),
        {
            if pattern_matches(pc.as_slice(), self.patterns[j].as_str()) {
                assert(views(self.patterns@)[j as int] == self.patterns@[j as int]@);
                return true;
            }
        }
        false
    }
}

/// What was seen of `.git/index` when a change was attributed.
#[derive(Debug, Clone, Copy, PartialEq, Eq, Structural)]
pub enum GitIndexObservation {
    /// The file could not be read.
    Missing,
    /// The file exists but its modification time could not be read.
    NoModifiedTime,
    /// Its modification time, in nanoseconds since the Unix epoch.
    ModifiedAt(i128),
}

/// Git counts as active when the index was modified less than this many
/// nanoseconds ago.
pub const GIT_ACTIVITY_WINDOW_NANOS: i128 = 5_000_000_000;

/// Detects the source of filesystem changes.
#[derive(Debug, Clone)]
pub struct EventAttributor {
    /// Explicit source override (highest priority).
    explicit_source: Option<Source>,
    /// Build artifact patterns.
    build_patterns: BuildPatterns,
    /// Last seen modification time of `.git/index` (nanoseconds since the
    /// Unix epoch).
    last_git_index_mtime: Option<i128>,
}

/// The git check: `(active, new recorded time)` for an observation made at
/// `now`.  Git is active when the index was seen before, was modified less
/// than five seconds ago (and not in the future), and is newer than when
/// last seen.  A missing index resets the recorded time; an unreadable time
/// keeps it; otherwise the seen time is recorded.
pub open spec fn git_check(last: Option<i128>, obs: GitIndexObservation, now: i128) -> (bool, Option<i128>) {
    match obs {
        GitIndexObservation::Missing => (false, None),
        GitIndexObservation::NoModifiedTime => (false, last),
        GitIndexObservation::ModifiedAt(t) => {
            let active = match last {
                Some(l) => now >= t && now - t < GIT_ACTIVITY_WINDOW_NANOS && t > l,
                None => false,
            };
            (active, Some(t))
        },
    }
}

impl EventAttributor {
    /// The explicit source, the build patterns and the recorded index time.
    pub closed spec fn spec_state(&self) -> (Option<Source>, Seq<Seq<char>>, Option<i128>) {
        (self.explicit_source, views(self.build_patterns.patterns@), self.last_git_index_mtime)
    }

    /// No explicit source, the default build patterns, nothing recorded.
    pub fn new() -> (r: Self)
        ensures
            r.spec_state() == (None::<Source>, default_build_patterns(), None::<i128>),
    {
        EventAttributor { explicit_source: None, build_patterns: BuildPatterns::default(), last_git_index_mtime: None }
    }

    /// Every change is attributed to `source`.
    pub fn with_explicit_source(self, source: Source) -> (r: Self)
        ensures
            r.spec_state() == (Some(source), self.spec_state().1, self.spec_state().2),
    {
        EventAttributor { explicit_source: Some(source), ..self }
    }

    /// Build output is recognised by `patterns` instead.
    pub fn with_build_patterns(self, patterns: BuildPatterns) -> (r: Self)
        ensures
            r.spec_state() == (self.spec_state().0, views(patterns.patterns@), self.spec_state().2),
    {
        EventAttributor { build_patterns: patterns, ..self }
    }

    /// The recorded modification time of `.git/index`.
    pub fn last_git_index_mtime(&self) -> (r: Option<i128>)
        ensures
            r == self.spec_state().2,
    {
        self.last_git_index_mtime
    }

    /// The source of a change to `path`, given what was seen of the
    /// project's `.git/index` at time `now` (nanoseconds since the Unix
    /// epoch).  In order: the explicit source (the index is then not
    /// consulted), git when the index shows recent activity, build when
    /// the path matches a build pattern, and the user otherwise.
    pub fn detect_source(&mut self, path: &str, git_index: GitIndexObservation, now: i128) -> (r: Source)
        ensures
            old(self).spec_state().0 matches Some(s) ==> r == s && final(self).spec_state() == old(
                self,
            ).spec_state(),
            old(self).spec_state().0 is None ==> {
                let (active, kept_mtime) = git_check(old(self).spec_state().2, git_index, now);
                &&& final(self).spec_state() == (old(self).spec_state().0, old(self).spec_state().1, kept_mtime)
                &&& r == if active {
                    Source::Git
                } else if build_matches(old(self).spec_state().1, path@) {
                    Source::Build
                } else {
                    Source::User
                }
            },
    {
        if let Some(source) = self.explicit_source {
            return source;
        }
        if self.is_git_active(git_index, now) {
            return Source::Git;
        }
        if self.build_patterns.matches(path) {
            return Source::Build;
        }
        Source::User
    }

    /// The git check of `git_check`, updating the recorded time.
    fn is_git_active(&mut self, git_index: GitIndexObservation, now: i128) -> (r: bool)
        ensures
            (r, final(self).spec_state().2) == git_check(old(self).spec_state().2, git_index, now),
            final(self).spec_state().0 == old(self).spec_state().0,
            final(self).spec_state().1 == old(self).spec_state().1,
    {
        match git_index {
            GitIndexObservation::Missing => {
                self.last_git_index_mtime = None;
                false
            },
            GitIndexObservation::NoModifiedTime => false,
            GitIndexObservation::ModifiedAt(current) => {
                let active = match self.last_git_index_mtime {
                    Some(last) => match now.checked_sub(current) {
                        Some(elapsed) => elapsed >= 0 && elapsed < GIT_ACTIVITY_WINDOW_NANOS && current > last,
                        None => false,
                    },
                    None => false,
                };
                self.last_git_index_mtime = Some(current);
                active
            },
        }
    }

    /// Records the index time seen after a known git operation; an
    /// unreadable index leaves the recorded time as it was.
    pub fn mark_git_activity(&mut self, git_index: GitIndexObservation)
        ensures
            final(self).spec_state().0 == old(self).spec_state().0,
            final(self).spec_state().1 == old(self).spec_state().1,
            final(self).spec_state().2 == match git_index {
                GitIndexObservation::ModifiedAt(t) => Some(t),
                _ => old(self).spec_state().2,
            },
    {
        if let GitIndexObservation::ModifiedAt(t) = git_index {
            self.last_git_index_mtime = Some(t);
        }
    }
}

impl Default for EventAttributor {
    fn default() -> (r: Self)
        ensures
            r.spec_state() == (None::<Source>, default_build_patterns(), None::<i128>),
    {
        Self::new()
    }
}

/// An explicit source wins over everything, and without git activity a
/// path that matches no build pattern is the user's.
pub proof fn law_attribution_priority(
    explicit: Option<Source>,
    patterns: Seq<Seq<char>>,
    last: Option<i128>,
    obs: GitIndexObservation,
    now: i128,
    path: Seq<char>,
)
    ensures
        last is None ==> !git_check(last, obs, now).0,
        obs == GitIndexObservation::Missing ==> git_check(last, obs, now) == (false, None::<i128>),
{
}

} // verus!
