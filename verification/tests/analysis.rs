use ambient_fs::analysis::{FileAnalysis, ImportRef, LintHint, LintSeverity};

#[test]
fn import_ref_empty_symbols_means_whole_module() {
    let imp = ImportRef { path: "./utils".to_string(), symbols: vec![], line: 5 };
    assert!(imp.symbols.is_empty());
}

#[test]
fn file_analysis_with_data() {
    let analysis = FileAnalysis {
        file_path: "src/routes.ts".to_string(),
        project_id: "proj-1".to_string(),
        content_hash: "hash456".to_string(),
        exports: vec!["Router".to_string(), "createRoute".to_string()],
        imports: vec![
            ImportRef { path: "express".to_string(), symbols: vec!["Router".to_string()], line: 1 },
            ImportRef { path: "./middleware".to_string(), symbols: vec![], line: 2 },
        ],
        todo_count: 2,
        lint_hints: vec![LintHint {
            line: 42,
            column: 5,
            severity: LintSeverity::Warning,
            message: "unused variable".to_string(),
            rule: Some("no-unused-vars".to_string()),
        }],
        line_count: 87,
    };
    assert_eq!(analysis.exports.len(), 2);
    assert_eq!(analysis.imports.len(), 2);
    assert_eq!(analysis.imports[0].symbols, vec!["Router"]);
    assert_eq!(analysis.lint_hints[0].severity, LintSeverity::Warning);
}

#[test]
fn lint_severity_display() {
    assert_eq!(LintSeverity::Info.as_str().to_string(), "info");
    assert_eq!(LintSeverity::Warning.as_str().to_string(), "warning");
    assert_eq!(LintSeverity::Error.as_str().to_string(), "error");
}
