//! Local (tier 1) content analysis: line counts and TODO/FIXME/HACK
//! comment counts.
use vstd::prelude::*;
use crate::analysis::FileAnalysis;
use crate::llm_analyzer::{is_merge, LlmAnalysisResponse, LlmAnalyzerError, LlmFileAnalyzer};
use crate::text::is_blank;
use crate::text::{chars_of, contains, occurs_at, seq_contains, string_of};

verus! {

#[verifier::external_type_specification]
#[verifier::external_body]
pub struct ExIoError(std::io::Error);

/// Error type for analysis operations.
#[derive(Debug)]
pub enum AnalysisError {
    Io(std::io::Error),
    FileTooLarge { size: u64, max: u64 },
    UnsupportedFileType(String),
}

/// Configuration for the analyzer.
#[derive(Debug, Clone)]
pub struct AnalyzerConfig {
    /// Maximum file size to analyze (in bytes).
    pub max_file_size: u64,
}

impl Default for AnalyzerConfig {
    /// Files up to 1 MiB are analysed.
    fn default() -> (r: Self)
        ensures
            r.max_file_size == 1048576,
    {
        AnalyzerConfig { max_file_size: 1024 * 1024 }
    }
}

/// File content analyzer.
pub struct FileAnalyzer {
    config: AnalyzerConfig,
    llm_enabled: bool,
}

// ---------------------------------------------------------------------
// Line counting (`str::lines().count()`).
// ---------------------------------------------------------------------

/// Number of `'\n'` in `s`.
pub open spec fn newline_count(s: Seq<char>) -> nat
    decreases s.len(),
{
    if s.len() == 0 {
        0
    } else {
        newline_count(s.drop_last()) + if s.last() == '\n' {
            1nat
        } else {
            0nat
        }
    }
}

proof fn lemma_newline_count_bound(s: Seq<char>)
    ensures
        newline_count(s) <= s.len(),
    decreases s.len(),
{
    if s.len() > 0 {
        lemma_newline_count_bound(s.drop_last());
    }
}

/// Number of lines: lines end at `'\n'` (a `'\r'` before it belongs to
/// the line ending) and the last line ending is optional.
pub open spec fn line_count(s: Seq<char>) -> nat {
    if s.len() == 0 {
        0
    } else if s.last() == '\n' {
        newline_count(s)
    } else {
        newline_count(s) + 1
    }
}

// ---------------------------------------------------------------------
// Comment keyword counting.
// ---------------------------------------------------------------------

/// What `char::is_alphabetic` returns (the Unicode `Alphabetic` property).
pub uninterp spec fn alphabetic(c: char) -> bool;

/// What `str::to_uppercase` returns for a string with these characters.
pub uninterp spec fn uppercase(s: Seq<char>) -> Seq<char>;

/// `char::is_alphabetic`: the Unicode `Alphabetic` property, a function
/// of the character alone; its table is not written out here.
#[verifier::external_body]
fn is_alphabetic(c: char) -> (r: bool)
    ensures
        r == alphabetic(c),
{
    c.is_alphabetic()
}

/// `str::to_uppercase`: the Unicode upper-case mapping, a function of the
/// characters alone; its table is not written out here.
#[verifier::external_body]
fn to_upper(s: &str) -> (r: String)
    ensures
        r@ == uppercase(s@),
{
    s.to_uppercase()
}

/// Number of bytes of `c` in UTF-8.
pub open spec fn utf8_width(c: char) -> nat {
    let v = c as int;
    if v < 0x80 {
        1
    } else if v < 0x800 {
        2
    } else if v < 0x10000 {
        3
    } else {
        4
    }
}

/// Number of bytes of `s` in UTF-8 (`String::len`).
pub open spec fn utf8_len(s: Seq<char>) -> nat
    decreases s.len(),
{
    if s.len() == 0 {
        0
    } else {
        utf8_len(s.drop_last()) + utf8_width(s.last())
    }
}

/// The first index at or after `k` that is not a space or tab.
pub open spec fn skip_blanks(s: Seq<char>, k: int) -> int
    decreases s.len() - k,
{
    if 0 <= k < s.len() && (s[k] == ' ' || s[k] == '\t') {
        skip_blanks(s, k + 1)
    } else {
        k
    }
}

/// The candidate keyword read from `k` on, with `buf` read so far, and
/// the index where reading stopped: letters and `:` are collected (until
/// the collected text is over 10 bytes), other characters are skipped
/// before the first letter and end the word after it; a newline ends the
/// word without being read.
pub open spec fn collect_word(s: Seq<char>, k: int, buf: Seq<char>) -> (Seq<char>, int)
    decreases s.len() - k,
{
    if k < 0 || k >= s.len() {
        (buf, k)
    } else if s[k] == '\n' {
        (buf, k)
    } else if alphabetic(s[k]) || s[k] == ':' {
        let b2 = buf.push(s[k]);
        if utf8_len(b2) > 10 {
            (b2, k + 1)
        } else {
            collect_word(s, k + 1, b2)
        }
    } else if buf.len() > 0 {
        (buf, k)
    } else {
        collect_word(s, k + 1, buf)
    }
}

/// The index just after the first newline at or after `k` (or the end).
pub open spec fn after_line(s: Seq<char>, k: int) -> int
    decreases s.len() - k,
{
    if k < 0 || k >= s.len() {
        k
    } else if s[k] == '\n' {
        k + 1
    } else {
        after_line(s, k + 1)
    }
}

/// The word names one of the markers, ignoring case.
pub open spec fn is_marker(word: Seq<char>) -> bool {
    let u = uppercase(word);
    seq_contains(u, "TODO"@) || seq_contains(u, "FIXME"@) || seq_contains(u, "HACK"@)
}

/// Marker detection ignores case: two words with the same upper-case form
/// are both markers or both not (so `fixme`, `Fixme` and `FIXME` count
/// alike).
pub proof fn law_marker_ignores_case(w1: Seq<char>, w2: Seq<char>)
    requires
        uppercase(w1) == uppercase(w2),
    ensures
        is_marker(w1) == is_marker(w2),
{
}

/// Each of the three markers counts wherever it stands in the upper-cased
/// word, and nothing else does: a word is a marker exactly when `TODO`,
/// `FIXME` or `HACK` occurs as a block of its upper-case form.
pub proof fn law_marker_words(w: Seq<char>)
    ensures
        is_marker(w) <==> exists|i: int|
            {
                ||| (0 <= i && i + 4 <= uppercase(w).len() && #[trigger] uppercase(w).subrange(i, i + 4) == "TODO"@)
                ||| (0 <= i && i + 5 <= uppercase(w).len() && uppercase(w).subrange(i, i + 5) == "FIXME"@)
                ||| (0 <= i && i + 4 <= uppercase(w).len() && uppercase(w).subrange(i, i + 4) == "HACK"@)
            },
{
    reveal_strlit("TODO");
    reveal_strlit("FIXME");
    reveal_strlit("HACK");
    let u = uppercase(w);
    if is_marker(w) {
        if seq_contains(u, "TODO"@) {
            let i = choose|i: int| occurs_at(u, "TODO"@, i);
            assert(u.subrange(i, i + 4) == "TODO"@);
        } else if seq_contains(u, "FIXME"@) {
            let i = choose|i: int| occurs_at(u, "FIXME"@, i);
            assert(u.subrange(i, i + 5) == "FIXME"@);
            assert(u.subrange(i, i + 4) == u.subrange(i, i + 4));
        } else {
            let i = choose|i: int| occurs_at(u, "HACK"@, i);
            assert(u.subrange(i, i + 4) == "HACK"@);
        }
    }
    assert forall|i: int|
        {
            ||| (0 <= i && i + 4 <= uppercase(w).len() && #[trigger] uppercase(w).subrange(i, i + 4) == "TODO"@)
            ||| (0 <= i && i + 5 <= uppercase(w).len() && uppercase(w).subrange(i, i + 5) == "FIXME"@)
            ||| (0 <= i && i + 4 <= uppercase(w).len() && uppercase(w).subrange(i, i + 4) == "HACK"@)
        } implies is_marker(w) by {
        if 0 <= i && i + 4 <= u.len() && u.subrange(i, i + 4) == "TODO"@ {
            assert(occurs_at(u, "TODO"@, i));
        } else if 0 <= i && i + 5 <= u.len() && u.subrange(i, i + 5) == "FIXME"@ {
            assert(occurs_at(u, "FIXME"@, i));
        } else {
            assert(occurs_at(u, "HACK"@, i));
        }
    }
}

/// The comment body starting at `k`: whether its first word is a marker,
/// and the index after its line.
pub open spec fn scan_comment(s: Seq<char>, k: int) -> (bool, int) {
    let w = collect_word(s, skip_blanks(s, k), seq![]);
    (is_marker(w.0), after_line(s, w.1))
}

/// Number of marker comments in `s[i..]`: comments start at `//`, `--`
/// or `#`, and count when their first word holds TODO, FIXME or HACK.
pub open spec fn todo_count_from(s: Seq<char>, i: int) -> nat
    decreases s.len() - i,
{
    if i < 0 || i >= s.len() {
        0
    } else if (s[i] == '/' || s[i] == '-') && i + 1 < s.len() && s[i + 1] == s[i] {
        proof {
            lemma_scan_comment(s, i + 2);
        }
        let (hit, j) = scan_comment(s, i + 2);
        (if hit {
            1nat
        } else {
            0nat
        }) + todo_count_from(s, j)
    } else if s[i] == '#' {
        proof {
            lemma_scan_comment(s, i + 1);
        }
        let (hit, j) = scan_comment(s, i + 1);
        (if hit {
            1nat
        } else {
            0nat
        }) + todo_count_from(s, j)
    } else {
        todo_count_from(s, i + 1)
    }
}

/// Number of marker comments in `s`.
pub open spec fn todo_count(s: Seq<char>) -> nat {
    todo_count_from(s, 0)
}

pub proof fn lemma_skip_blanks(s: Seq<char>, k: int)
    requires
        0 <= k,
    ensures
        k <= skip_blanks(s, k),
        k <= s.len() ==> skip_blanks(s, k) <= s.len(),
    decreases s.len() - k,
{
    if 0 <= k < s.len() && (s[k] == ' ' || s[k] == '\t') {
        lemma_skip_blanks(s, k + 1);
    }
}

pub proof fn lemma_collect_word(s: Seq<char>, k: int, buf: Seq<char>)
    requires
        0 <= k,
    ensures
        k <= collect_word(s, k, buf).1,
        k <= s.len() ==> collect_word(s, k, buf).1 <= s.len(),
    decreases s.len() - k,
{
    if 0 <= k < s.len() && s[k] != '\n' {
        if alphabetic(s[k]) || s[k] == ':' {
            let b2 = buf.push(s[k]);
            if utf8_len(b2) <= 10 {
                lemma_collect_word(s, k + 1, b2);
            }
        } else if buf.len() == 0 {
            lemma_collect_word(s, k + 1, buf);
        }
    }
}

pub proof fn lemma_after_line(s: Seq<char>, k: int)
    requires
        0 <= k,
    ensures
        k <= after_line(s, k),
        k <= s.len() ==> after_line(s, k) <= s.len(),
    decreases s.len() - k,
{
    if 0 <= k < s.len() && s[k] != '\n' {
        lemma_after_line(s, k + 1);
    }
}

pub proof fn lemma_scan_comment(s: Seq<char>, k: int)
    requires
        0 <= k <= s.len(),
    ensures
        k <= scan_comment(s, k).1 <= s.len(),
{
    lemma_skip_blanks(s, k);
    let b = skip_blanks(s, k);
    lemma_collect_word(s, b, seq![]);
    lemma_after_line(s, collect_word(s, b, seq![]).1);
}

/// Each counted comment uses at least one character.
pub proof fn lemma_todo_count_bound(s: Seq<char>, i: int)
    requires
        0 <= i <= s.len(),
    ensures
        todo_count_from(s, i) <= s.len() - i,
    decreases s.len() - i,
{
    if i < s.len() {
        if (s[i] == '/' || s[i] == '-') && i + 1 < s.len() && s[i + 1] == s[i] {
            lemma_scan_comment(s, i + 2);
            let j = scan_comment(s, i + 2).1;
            lemma_todo_count_bound(s, j);
        } else if s[i] == '#' {
            lemma_scan_comment(s, i + 1);
            let j = scan_comment(s, i + 1).1;
            lemma_todo_count_bound(s, j);
        } else {
            lemma_todo_count_bound(s, i + 1);
        }
    }
}

/// Number of UTF-8 bytes of one character.
fn char_width(c: char) -> (r: usize)
    ensures
        r == utf8_width(c),
{
    let v = c as u32;
    assert(v as int == c as int);
    if v < 0x80 {
        1
    } else if v < 0x800 {
        2
    } else if v < 0x10000 {
        3
    } else {
        4
    }
}

impl FileAnalyzer {
    pub fn new(config: AnalyzerConfig) -> (r: Self)
        ensures
            r.config() == config,
            !r.is_llm_enabled(),
    {
        FileAnalyzer { config, llm_enabled: false }
    }

    /// The configuration.
    pub closed spec fn config(&self) -> AnalyzerConfig {
        self.config
    }

    /// Language-model enhancement is switched on.
    pub closed spec fn spec_llm_enabled(&self) -> bool {
        self.llm_enabled
    }

    pub fn with_llm(self, enabled: bool) -> (r: Self)
        ensures
            r.config() == self.config(),
            r.spec_llm_enabled() == enabled,
    {
        FileAnalyzer { llm_enabled: enabled, ..self }
    }

    #[verifier::when_used_as_spec(spec_llm_enabled)]
    pub fn is_llm_enabled(&self) -> (r: bool)
        ensures
            r == self.spec_llm_enabled(),
    {
        self.llm_enabled
    }

    /// Merges a model response into a tier 1 analysis, as
    /// `LlmFileAnalyzer::enhance_with_llm_response` does; `parsed` is what
    /// decoding `llm_response` as JSON gave.
    pub fn enhance_with_llm_response(
        &self,
        base: FileAnalysis,
        llm_response: &str,
        parsed: Result<LlmAnalysisResponse, serde_json::Error>,
    ) -> (r: Result<FileAnalysis, LlmAnalyzerError>)
        ensures
            is_blank(llm_response@) ==> r matches Err(LlmAnalyzerError::EmptyResponse),
            !is_blank(llm_response@) ==> match parsed {
                Err(e) => r matches Err(LlmAnalyzerError::ParseError(e2)) && e2 == e,
                Ok(resp) => r matches Ok(a) && is_merge(a, resp, base),
            },
    {
        let llm = LlmFileAnalyzer::new(self.llm_enabled);
        llm.enhance_with_llm_response(base, llm_response, parsed)
    }

    /// The tier 1 analysis of a file's content: refused with
    /// `FileTooLarge` when `file_size` is over the configured limit;
    /// otherwise line and marker counts with no imports, exports or lint
    /// hints.
    pub fn analyze_content(
        &self,
        file_path: &str,
        file_size: u64,
        content: &str,
        project_id: &str,
        content_hash: &str,
    ) -> (r: Result<FileAnalysis, AnalysisError>)
        requires
            todo_count(content@) <= u32::MAX,
        ensures
            file_size > self.config().max_file_size ==> (r matches Err(
                AnalysisError::FileTooLarge { size, max },
            ) && size == file_size && max == self.config().max_file_size),
            file_size <= self.config().max_file_size ==> (r matches Ok(a) && {
                &&& a.file_path@ == file_path@
                &&& a.project_id@ == project_id@
                &&& a.content_hash@ == content_hash@
                &&& a.line_count == line_count(content@) as u32
                &&& a.todo_count == todo_count(content@)
                &&& a.exports@.len() == 0
                &&& a.imports@.len() == 0
                &&& a.lint_hints@.len() == 0
            }),
    {
        if file_size > self.config.max_file_size {
            return Err(AnalysisError::FileTooLarge { size: file_size, max: self.config.max_file_size });
        }
        let line_count = self.count_lines(content);
        let todo_count = self.count_todos(content);
        Ok(FileAnalysis {
            file_path: file_path.to_owned(),
            project_id: project_id.to_owned(),
            content_hash: content_hash.to_owned(),
            exports: Vec::new(),
            imports: Vec::new(),
            todo_count,
            lint_hints: Vec::new(),
            line_count,
        })
    }

    /// Number of lines (`str::lines().count()`, truncated to `u32`).
    pub fn count_lines(&self, content: &str) -> (r: u32)
        ensures
            r == line_count(content@) as u32,
    {
        let s = chars_of(content);
        if s.len() == 0 {
            return 0;
        }
        let mut n: u64 = 0;
        let len = s.len();
        for i in 0..len
            invariant
                len == s@.len(),
                n == newline_count(s@.take(i as int)),
                n <= i,
        {
            assert(s@.take(i + 1).drop_last() == s@.take(i as int));
            if s[i] == '\n' {
                n = n + 1;
            }
        }
        assert(s@.take(len as int) == s@);
        if s[len - 1] != '\n' {
            proof {
                lemma_newline_count_bound(s@.drop_last());
            }
            n = n + 1;
        }
        #[verifier::truncate]
        (n as u32)
    }

    /// Number of comments whose first word holds TODO, FIXME or HACK
    /// (any case), comments starting at `//`, `--` or `#`.
    pub fn count_todos(&self, content: &str) -> (r: u32)
        requires
            todo_count(content@) <= u32::MAX,
        ensures
            r == todo_count(content@),
    {
        let s = chars_of(content);
        let mut count: u32 = 0;
        let mut i: usize = 0;
        while i < s.len()
            invariant
                s@ == content@,
                i <= s@.len(),
                count + todo_count_from(s@, i as int) == todo_count(content@),
                todo_count(content@) <= u32::MAX,
            decreases s@.len() - i,
        {
            let c = s[i];
            if (c == '/' || c == '-') && i + 1 < s.len() && s[i + 1] == c {
                proof {
                    lemma_scan_comment(s@, i + 2);
                }
                i = self.scan_line_comment_for_keywords(&s, i + 2, &mut count);
            } else if c == '#' {
                proof {
                    lemma_scan_comment(s@, i + 1);
                }
                i = self.scan_line_comment_for_keywords(&s, i + 1, &mut count);
            } else {
                i = i + 1;
            }
        }
        count
    }

    /// Reads the comment body starting at `start`, counts it when its first
    /// word is a marker, and returns the index after its line.
    fn scan_line_comment_for_keywords(&self, s: &Vec<char>, start: usize, count: &mut u32) -> (next: usize)
        requires
            start <= s@.len(),
            *old(count) + (if scan_comment(s@, start as int).0 {
                1int
            } else {
                0int
            }) <= u32::MAX,
        ensures
            next == scan_comment(s@, start as int).1,
            *final(count) == *old(count) + if scan_comment(s@, start as int).0 {
                1int
            } else {
                0int
            },
    {
        let mut k = start;
        while k < s.len() && (s[k] == ' ' || s[k] == '\t')
            invariant
                start <= k <= s@.len(),
                skip_blanks(s@, k as int) == skip_blanks(s@, start as int),
            decreases s@.len() - k,
        {
            k = k + 1;
        }
        let mut buf: Vec<char> = Vec::new();
        let mut width: usize = 0;
        let ghost b0 = k as int;
        loop
            invariant_except_break
                b0 <= k <= s@.len(),
                b0 == skip_blanks(s@, start as int),
                collect_word(s@, k as int, buf@) == collect_word(s@, b0, seq![]),
                width == utf8_len(buf@),
                width <= 10,
            ensures
                k <= s@.len(),
                (buf@, k as int) == collect_word(s@, b0, seq![]),
            decreases s@.len() - k,
        {
            if k >= s.len() {
                break;
            }
            let c = s[k];
            if c == '\n' {
                break;
            }
            if is_alphabetic(c) || c == ':' {
                let ghost before = buf@;
                buf.push(c);
                assert(buf@.drop_last() == before);
                width = width + char_width(c);
                k = k + 1;
                if width > 10 {
                    break;
                }
            } else if buf.len() > 0 {
                break;
            } else {
                k = k + 1;
            }
        }
        let word = string_of(buf.as_slice());
        let upper = to_upper(word.as_str());
        let uc = chars_of(upper.as_str());
        let t = chars_of("TODO");
        let f = chars_of("FIXME");
        let h = chars_of("HACK");
        let hit = contains(uc.as_slice(), t.as_slice()) || contains(uc.as_slice(), f.as_slice())
            || contains(uc.as_slice(), h.as_slice());
        if hit {
            *count = *count + 1;
        }
        let ghost k2 = k as int;
        loop
            invariant_except_break
                k2 <= k <= s@.len(),
                after_line(s@, k as int) == after_line(s@, k2),
            ensures
                k == after_line(s@, k2),
            decreases s@.len() - k,
        {
            if k >= s.len() {
                break;
            }
            let c = s[k];
            k = k + 1;
            if c == '\n' {
                break;
            }
        }
        k
    }
}

/// Every line counts once, whether or not the text ends with a line
/// ending; empty text has no lines.
pub proof fn law_final_line_ending_optional(s: Seq<char>)
    ensures
        s.len() > 0 && s.last() != '\n' ==> line_count(s.push('\n')) == line_count(s),
        line_count(Seq::empty()) == 0,
{
    if s.len() > 0 && s.last() != '\n' {
        assert(s.push('\n').drop_last() == s);
    }
}

} // verus!
