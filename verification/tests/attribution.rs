use ambient_fs::attribution::{BuildPatterns, EventAttributor, GitIndexObservation};
use ambient_fs::event::Source;

/// A project without a `.git/index`.
const NO_GIT: GitIndexObservation = GitIndexObservation::Missing;

/// An arbitrary current time, in nanoseconds since the epoch.
const NOW: i128 = 1_700_000_000_000_000_000;

#[test]
fn default_source_is_user() {
    let mut attributor = EventAttributor::new();
    let source = attributor.detect_source("src/main.rs", NO_GIT, NOW);
    assert_eq!(source, Source::User);
}

#[test]
fn explicit_source_overrides_all() {
    let attributor = EventAttributor::new().with_explicit_source(Source::AiAgent);
    let mut attributor = attributor;
    let source = attributor.detect_source("dist/bundle.js", NO_GIT, NOW);
    assert_eq!(source, Source::AiAgent);
}

#[test]
fn build_pattern_dist_directory() {
    let mut attributor = EventAttributor::new();
    assert_eq!(attributor.detect_source("dist/app.js", NO_GIT, NOW), Source::Build);
}

#[test]
fn build_pattern_target_directory() {
    let mut attributor = EventAttributor::new();
    assert_eq!(attributor.detect_source("target/debug/main", NO_GIT, NOW), Source::Build);
}

#[test]
fn build_pattern_build_directory() {
    let mut attributor = EventAttributor::new();
    assert_eq!(attributor.detect_source("build/Release/addon.node", NO_GIT, NOW), Source::Build);
}

#[test]
fn build_pattern_next_directory() {
    let mut attributor = EventAttributor::new();
    assert_eq!(attributor.detect_source(".next/static/chunk.js", NO_GIT, NOW), Source::Build);
}

#[test]
fn build_pattern_object_files() {
    let mut attributor = EventAttributor::new();
    assert_eq!(attributor.detect_source("src/main.o", NO_GIT, NOW), Source::Build);
    assert_eq!(attributor.detect_source("lib/libfoo.a", NO_GIT, NOW), Source::Build);
    assert_eq!(attributor.detect_source("libfoo.so", NO_GIT, NOW), Source::Build);
}

#[test]
fn build_pattern_python_cache() {
    let mut attributor = EventAttributor::new();
    assert_eq!(attributor.detect_source("src/foo.pyc", NO_GIT, NOW), Source::Build);
    assert_eq!(attributor.detect_source("__pycache__/foo.pyc", NO_GIT, NOW), Source::Build);
}

#[test]
fn build_pattern_rust_artifacts() {
    let mut attributor = EventAttributor::new();
    assert_eq!(attributor.detect_source("target/debug/main.rmeta", NO_GIT, NOW), Source::Build);
    assert_eq!(attributor.detect_source("target/release/libfoo.rlib", NO_GIT, NOW), Source::Build);
}

#[test]
fn build_pattern_windows_executable() {
    let mut attributor = EventAttributor::new();
    assert_eq!(attributor.detect_source("dist/main.exe", NO_GIT, NOW), Source::Build);
}

#[test]
fn custom_build_patterns_override_defaults() {
    let custom = BuildPatterns { patterns: vec!["custom_build/".into(), "*.xyz".into()] };
    let mut attributor = EventAttributor::new().with_build_patterns(custom);
    assert_eq!(attributor.detect_source("custom_build/output.bin", NO_GIT, NOW), Source::Build);
    assert_eq!(attributor.detect_source("src/file.xyz", NO_GIT, NOW), Source::Build);
    assert_eq!(attributor.detect_source("dist/app.js", NO_GIT, NOW), Source::User);
}

#[test]
fn non_build_path_returns_user() {
    let mut attributor = EventAttributor::new();
    let paths = ["src/main.rs", "lib/utils.ts", "README.md", "package.json", "Cargo.toml", "tests/test_file.py"];
    for path in paths {
        assert_eq!(attributor.detect_source(path, NO_GIT, NOW), Source::User, "Path {} should be User", path);
    }
}

#[test]
fn git_detection_with_no_git_repo() {
    let mut attributor = EventAttributor::new();
    assert_eq!(attributor.detect_source("src/main.rs", NO_GIT, NOW), Source::User);
}

#[test]
fn git_detection_with_git_repo_but_no_activity() {
    let mut attributor = EventAttributor::new();
    let index = GitIndexObservation::ModifiedAt(NOW - 1_000_000);
    assert_eq!(attributor.detect_source("src/main.rs", index, NOW), Source::User);
}

#[test]
fn git_detection_with_recent_index_change() {
    let mut attributor = EventAttributor::new();
    attributor.mark_git_activity(GitIndexObservation::ModifiedAt(NOW - 2_000_000_000));
    let touched = GitIndexObservation::ModifiedAt(NOW - 10_000_000);
    assert_eq!(attributor.detect_source("src/main.rs", touched, NOW), Source::Git);
    assert_eq!(attributor.last_git_index_mtime(), Some(NOW - 10_000_000));
}

#[test]
fn git_activity_older_than_five_seconds_is_not_git() {
    let mut attributor = EventAttributor::new();
    attributor.mark_git_activity(GitIndexObservation::ModifiedAt(NOW - 20_000_000_000));
    let touched = GitIndexObservation::ModifiedAt(NOW - 5_000_000_000);
    assert_eq!(attributor.detect_source("src/main.rs", touched, NOW), Source::User);
    let seen_again = GitIndexObservation::ModifiedAt(NOW - 5_000_000_000);
    assert_eq!(attributor.detect_source("dist/a.js", seen_again, NOW), Source::Build);
}

#[test]
fn missing_index_forgets_the_recorded_time() {
    let mut attributor = EventAttributor::new();
    attributor.mark_git_activity(GitIndexObservation::ModifiedAt(NOW - 2_000_000_000));
    assert_eq!(attributor.detect_source("src/a.rs", NO_GIT, NOW), Source::User);
    assert_eq!(attributor.last_git_index_mtime(), None);
    let unreadable = GitIndexObservation::NoModifiedTime;
    attributor.mark_git_activity(GitIndexObservation::ModifiedAt(7));
    assert_eq!(attributor.detect_source("src/a.rs", unreadable, NOW), Source::User);
    assert_eq!(attributor.last_git_index_mtime(), Some(7));
}

#[test]
fn git_detection_priority_over_build() {
    let mut attributor = EventAttributor::new().with_explicit_source(Source::Git);
    let index = GitIndexObservation::ModifiedAt(NOW - 1_000);
    assert_eq!(attributor.detect_source("dist/app.js", index, NOW), Source::Git);
}

#[test]
fn build_patterns_default_coverage() {
    let patterns = BuildPatterns::default();
    assert!(patterns.matches("dist/file.js"));
    assert!(patterns.matches("target/debug/main"));
    assert!(patterns.matches("build/output.o"));
    assert!(patterns.matches(".next/static/chunk.js"));
    assert!(patterns.matches(".nuxt/page.js"));
    assert!(patterns.matches("src/dist/file.js"));
    assert!(patterns.matches("app/node_modules/.cache/thing"));
    assert!(patterns.matches("main.o"));
    assert!(patterns.matches("lib.so"));
    assert!(patterns.matches("lib.dylib"));
    assert!(patterns.matches("program.exe"));
    assert!(patterns.matches("lib.a"));
    assert!(patterns.matches("lib.lib"));
    assert!(patterns.matches("module.pyc"));
    assert!(patterns.matches("module.rmeta"));
    assert!(patterns.matches("module.rlib"));
    assert!(!patterns.matches("src/main.rs"));
    assert!(!patterns.matches("README.md"));
    assert!(!patterns.matches("package.json"));
}

#[test]
fn explicit_source_variants() {
    for source in [Source::User, Source::AiAgent, Source::Git, Source::Build, Source::Voice] {
        let mut attributor = EventAttributor::new().with_explicit_source(source);
        assert_eq!(attributor.detect_source("any/path", NO_GIT, NOW), source, "Explicit source {:?} should override", source);
    }
}

#[test]
fn mark_git_activity_updates_tracker() {
    let mut attributor = EventAttributor::new();
    assert!(attributor.last_git_index_mtime().is_none());
    attributor.mark_git_activity(GitIndexObservation::ModifiedAt(NOW));
    assert!(attributor.last_git_index_mtime().is_some());
}

#[test]
fn build_pattern_subdirectory_match() {
    let mut attributor = EventAttributor::new();
    assert_eq!(attributor.detect_source("packages/frontend/dist/app.js", NO_GIT, NOW), Source::Build);
}

#[test]
fn vite_cache_directory() {
    let mut attributor = EventAttributor::new();
    assert_eq!(attributor.detect_source(".cache/vite/foo.js", NO_GIT, NOW), Source::Build);
}

#[test]
fn test_coverage_directory() {
    let mut attributor = EventAttributor::new();
    assert_eq!(attributor.detect_source("coverage/lcov-report/index.html", NO_GIT, NOW), Source::Build);
}

#[test]
fn python_venv_directories() {
    let mut attributor = EventAttributor::new();
    assert_eq!(attributor.detect_source(".venv/lib/python3.11/site-packages/foo.py", NO_GIT, NOW), Source::Build);
    assert_eq!(attributor.detect_source("venv/lib/python3.11/site-packages/foo.py", NO_GIT, NOW), Source::Build);
}

#[test]
fn nested_cache_directory() {
    let mut attributor = EventAttributor::new();
    assert_eq!(attributor.detect_source("node_modules/.cache/eslint/file.json", NO_GIT, NOW), Source::Build);
}
