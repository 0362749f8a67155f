//! Analysis results for a single file.
use vstd::prelude::*;
use crate::text::str_eq;

verus! {

/// Analysis results for a single file.
#[derive(Debug, Clone, PartialEq, Eq)]
pub struct FileAnalysis {
    pub file_path: String,
    pub project_id: String,
    /// blake3 hash of content that was analyzed
    pub content_hash: String,
    /// Exported symbols
    pub exports: Vec<String>,
    /// Import references
    pub imports: Vec<ImportRef>,
    /// TODO/FIXME/HACK comment count
    pub todo_count: u32,
    /// Lint hints from static analysis
    pub lint_hints: Vec<LintHint>,
    /// Total line count
    pub line_count: u32,
}

impl FileAnalysis {
    /// An analysis with no findings for the given file and content hash.
    pub fn empty(file_path: &str, project_id: &str, content_hash: &str) -> (r: Self)
        ensures
            r.file_path@ == file_path@,
            r.project_id@ == project_id@,
            r.content_hash@ == content_hash@,
            r.exports@.len() == 0,
            r.imports@.len() == 0,
            r.lint_hints@.len() == 0,
            r.todo_count == 0,
            r.line_count == 0,
    {
        FileAnalysis {
            file_path: file_path.to_owned(),
            project_id: project_id.to_owned(),
            content_hash: content_hash.to_owned(),
            exports: Vec::new(),
            imports: Vec::new(),
            todo_count: 0,
            lint_hints: Vec::new(),
            line_count: 0,
        }
    }

    /// True if this analysis was made for content with hash `hash`.
    pub fn is_valid_for(&self, hash: &str) -> (r: bool)
        ensures
            r == (self.content_hash@ == hash@),
    {
        str_eq(self.content_hash.as_str(), hash)
    }
}

/// A reference to an imported module/symbol.
#[derive(Debug, Clone, PartialEq, Eq)]
pub struct ImportRef {
    /// The import path/module (e.g. "@/composables/useChat")
    pub path: String,
    /// Specific symbols imported (empty = entire module)
    pub symbols: Vec<String>,
    /// Line number of the import statement
    pub line: u32,
}

/// A lint-level hint from static analysis.
#[derive(Debug, Clone, PartialEq, Eq)]
pub struct LintHint {
    pub line: u32,
    pub column: u32,
    pub severity: LintSeverity,
    pub message: String,
    /// Rule identifier (e.g. "no-unused-vars", "dead_code")
    pub rule: Option<String>,
}

/// Severity level for lint hints.
#[derive(Debug, Clone, Copy, PartialEq, Eq, Hash, Structural)]
pub enum LintSeverity {
    Info,
    Warning,
    Error,
}

/// The text form of a severity.
pub open spec fn severity_text(s: LintSeverity) -> Seq<char> {
    match s {
        LintSeverity::Info => "info"@,
        LintSeverity::Warning => "warning"@,
        LintSeverity::Error => "error"@,
    }
}

impl LintSeverity {
    /// `"info"`, `"warning"` or `"error"`.
    pub fn as_str(&self) -> (r: &'static str)
        ensures
            r@ == severity_text(*self),
    {
        match self {
            LintSeverity::Info => "info",
            LintSeverity::Warning => "warning",
            LintSeverity::Error => "error",
        }
    }
}

} // verus!
