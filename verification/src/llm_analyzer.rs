//! The language-model side of file analysis: the prompt that is sent, and
//! the merge of the model's imports, exports and lint hints into a local
//! analysis.
use vstd::prelude::*;
use crate::analysis::{FileAnalysis, ImportRef, LintHint, LintSeverity};
use crate::text::{char_is_white_space, chars_of, concat, is_blank, is_white_space, str_eq};

verus! {

#[verifier::external_type_specification]
#[verifier::external_body]
pub struct ExJsonError(serde_json::Error);

/// Error from LLM analysis.
#[derive(Debug)]
pub enum LlmAnalyzerError {
    /// The response was not JSON of the expected shape.
    ParseError(serde_json::Error),
    /// The response held nothing but white space.
    EmptyResponse,
}

/// Import representation in LLM response.
#[derive(Debug, Clone)]
pub struct LlmImport {
    pub path: String,
    pub symbols: Vec<String>,
    pub line: u32,
}

/// Lint hint representation in LLM response.
#[derive(Debug, Clone)]
pub struct LlmLintHint {
    pub line: u32,
    pub column: u32,
    pub severity: String,
    pub message: String,
    pub rule: Option<String>,
}

/// LLM analysis response structure.
#[derive(Debug, Clone)]
pub struct LlmAnalysisResponse {
    pub imports: Vec<LlmImport>,
    pub exports: Vec<String>,
    pub lint_hints: Vec<LlmLintHint>,
}

/// LLM file analyzer: builds prompts and merges responses.
#[derive(Debug, Clone)]
pub struct LlmFileAnalyzer {
    pub enabled: bool,
}

/// The fixed instruction sent as the system prompt.
pub open spec fn system_prompt_text() -> Seq<char> {
    "you analyze source code files. extract imports, exports, and lint hints. respond with JSON only. be concise. only report clear issues for lint."@
}

/// The user prompt for one file.
pub open spec fn user_prompt_text(file_path: Seq<char>, content: Seq<char>, language: Seq<char>) -> Seq<char> {
    "language: "@ + language + "\nfile: "@ + file_path + "\n---\n"@ + content
}

/// The severity named by a model's severity text; unknown text is a
/// warning.
pub open spec fn severity_from_text(s: Seq<char>) -> LintSeverity {
    if s == "info"@ {
        LintSeverity::Info
    } else if s == "warning"@ {
        LintSeverity::Warning
    } else if s == "error"@ {
        LintSeverity::Error
    } else {
        LintSeverity::Warning
    }
}

/// The import reference made from one import of a response.
pub open spec fn import_from(l: LlmImport) -> ImportRef {
    ImportRef { path: l.path, symbols: l.symbols, line: l.line }
}

/// The lint hint made from one hint of a response.
pub open spec fn hint_from(h: LlmLintHint) -> LintHint {
    LintHint {
        line: h.line,
        column: h.column,
        severity: severity_from_text(h.severity@),
        message: h.message,
        rule: h.rule,
    }
}

/// The severity for a model's severity text.
fn severity_of(s: &str) -> (r: LintSeverity)
    ensures
        r == severity_from_text(s@),
{
    if str_eq(s, "info") {
        LintSeverity::Info
    } else if str_eq(s, "warning") {
        LintSeverity::Warning
    } else if str_eq(s, "error") {
        LintSeverity::Error
    } else {
        LintSeverity::Warning
    }
}

/// `r` is `base` with the imports, exports and lint hints of `response`.
pub open spec fn is_merge(r: FileAnalysis, response: LlmAnalysisResponse, base: FileAnalysis) -> bool {
    &&& r.file_path == base.file_path
    &&& r.project_id == base.project_id
    &&& r.content_hash == base.content_hash
    &&& r.todo_count == base.todo_count
    &&& r.line_count == base.line_count
    &&& r.exports == response.exports
    &&& r.imports@ == response.imports@.map_values(|l: LlmImport| import_from(l))
    &&& r.lint_hints@ == response.lint_hints@.map_values(|h: LlmLintHint| hint_from(h))
}

impl LlmFileAnalyzer {
    pub fn new(enabled: bool) -> (r: Self)
        ensures
            r.enabled == enabled,
    {
        LlmFileAnalyzer { enabled }
    }

    /// The system and user prompts for analysing one file.
    pub fn build_prompt(&self, file_path: &str, content: &str, language: &str) -> (r: (String, String))
        ensures
            r.0@ == system_prompt_text(),
            r.1@ == user_prompt_text(file_path@, content@, language@),
    {
        let system = "you analyze source code files. extract imports, exports, and lint hints. respond with JSON only. be concise. only report clear issues for lint.".to_owned();
        let a = concat("language: ", language);
        let b = concat(a.as_str(), "\nfile: ");
        let c = concat(b.as_str(), file_path);
        let d = concat(c.as_str(), "\n---\n");
        let user = concat(d.as_str(), content);
        (system, user)
    }

    /// A response that holds nothing but white space is refused before
    /// any JSON decoding.
    pub fn check_not_empty(&self, response: &str) -> (r: Result<(), LlmAnalyzerError>)
        ensures
            r is Ok <==> !is_blank(response@),
            r is Err ==> r matches Err(LlmAnalyzerError::EmptyResponse),
    {
        let cs = chars_of(response);
        let n = cs.len();
        for i in 0..n
            invariant
                n == cs@.len(),
                cs@ == response@,
                forall|j: int| 0 <= j < i ==> is_white_space(#[trigger] cs@[j]),
        {
            if !char_is_white_space(cs[i]) {
                return Ok(());
            }
        }
        Err(LlmAnalyzerError::EmptyResponse)
    }

    /// The response as structured data.  `parsed` is what decoding
    /// `response` as JSON gave.  A blank response is `EmptyResponse`
    /// whatever the decoding gave; otherwise a decoding error is
    /// `ParseError`.
    pub fn parse_response(
        &self,
        response: &str,
        parsed: Result<LlmAnalysisResponse, serde_json::Error>,
    ) -> (r: Result<LlmAnalysisResponse, LlmAnalyzerError>)
        ensures
            is_blank(response@) ==> r matches Err(LlmAnalyzerError::EmptyResponse),
            !is_blank(response@) ==> match parsed {
                Err(e) => r matches Err(LlmAnalyzerError::ParseError(e2)) && e2 == e,
                Ok(resp) => r == Ok::<LlmAnalysisResponse, LlmAnalyzerError>(resp),
            },
    {
        match self.check_not_empty(response) {
            Err(e) => Err(e),
            Ok(()) => match parsed {
                Err(e) => Err(LlmAnalyzerError::ParseError(e)),
                Ok(resp) => Ok(resp),
            },
        }
    }

    /// Merges a response into a base analysis: imports, exports and lint
    /// hints come from the response (severities `info`, `warning`, `error`
    /// by name, anything else a warning); path, project, hash and the
    /// counts come from the base.
    pub fn to_file_analysis(&self, response: LlmAnalysisResponse, base: FileAnalysis) -> (r: FileAnalysis)
        ensures
            is_merge(r, response, base),
    {
        let LlmAnalysisResponse { imports: llm_imports, exports, lint_hints: llm_hints } = response;
        let ghost src_imports = llm_imports@;
        let ghost src_hints = llm_hints@;
        let mut imports: Vec<ImportRef> = Vec::new();
        for imp in it: llm_imports
            invariant
                it.seq() == src_imports,
                imports@ == it.seq().take(it.index() as int).map_values(|l: LlmImport| import_from(l)),
        {
            let ghost before = imports@;
            imports.push(ImportRef { path: imp.path, symbols: imp.symbols, line: imp.line });
            assert(it.seq().take(it.index() + 1) == it.seq().take(it.index() as int).push(imp));
        }
        let mut lint_hints: Vec<LintHint> = Vec::new();
        for h in it: llm_hints
            invariant
                it.seq() == src_hints,
                lint_hints@ == it.seq().take(it.index() as int).map_values(|h: LlmLintHint| hint_from(h)),
        {
            let severity = severity_of(h.severity.as_str());
            lint_hints.push(LintHint { line: h.line, column: h.column, severity, message: h.message, rule: h.rule });
            assert(it.seq().take(it.index() + 1) == it.seq().take(it.index() as int).push(h));
        }
        assert(src_imports.take(src_imports.len() as int) == src_imports);
        assert(src_hints.take(src_hints.len() as int) == src_hints);
        FileAnalysis { imports, exports, lint_hints, ..base }
    }

    /// Merges a model response into `base`.  `parsed` is what decoding
    /// `llm_response` as JSON gave.  A blank response is `EmptyResponse`
    /// whatever the decoding gave; otherwise a decoding error is
    /// `ParseError`, and a decoded response is merged.
    pub fn enhance_with_llm_response(
        &self,
        base: FileAnalysis,
        llm_response: &str,
        parsed: Result<LlmAnalysisResponse, serde_json::Error>,
    ) -> (r: Result<FileAnalysis, LlmAnalyzerError>)
        ensures
            is_blank(llm_response@) ==> r matches Err(LlmAnalyzerError::EmptyResponse),
            !is_blank(llm_response@) ==> match parsed {
                Err(e) => r matches Err(LlmAnalyzerError::ParseError(e2)) && e2 == e,
                Ok(resp) => r matches Ok(a) && is_merge(a, resp, base),
            },
    {
        match self.parse_response(llm_response, parsed) {
            Err(e) => Err(e),
            Ok(resp) => Ok(self.to_file_analysis(resp, base)),
        }
    }
}

} // verus!
