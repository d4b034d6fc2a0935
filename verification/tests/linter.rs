use grat::linter::{lint_files, LintIssue, TaxonomyEntry, TaxonomyFile, TaxonomyFileContent};

/// Helper: create a minimal valid entry for testing.
fn valid_entry(id: &str, category: &str, code: u32) -> TaxonomyEntry {
    TaxonomyEntry {
        id: id.to_string(),
        category: category.to_string(),
        code,
        name: format!("TestName{code}"),
        severity: "Error".to_string(),
        since_protocol: Some(20),
        deprecated_protocol: None,
        summary: "Test summary.".to_string(),
        detailed_explanation: "Test detailed explanation.".to_string(),
        related_errors: vec![],
        documentation_url: None,
    }
}

fn one_file(name: &str, entries: Vec<TaxonomyEntry>) -> Vec<TaxonomyFile> {
    vec![TaxonomyFile {
        file_name: name.to_string(),
        content: TaxonomyFileContent::Entries(entries),
    }]
}

fn matching<'a>(issues: &'a [LintIssue], needle: &str) -> Vec<&'a LintIssue> {
    issues.iter().filter(|i| i.message.contains(needle)).collect()
}

#[test]
fn valid_entry_passes() {
    let files = one_file(
        "test.toml",
        vec![
            valid_entry("test.entry.1", "budget", 1),
            valid_entry("test.entry.2", "storage", 2),
        ],
    );
    let issues = lint_files(&files);
    assert!(issues.is_empty(), "expected no issues, got: {issues:?}");
}

#[test]
fn missing_required_field_fails() {
    let mut entry = valid_entry("", "budget", 1);
    entry.name = String::new();
    entry.summary = String::new();
    entry.detailed_explanation = String::new();
    entry.since_protocol = None;
    let issues = lint_files(&one_file("test.toml", vec![entry]));
    assert!(
        !issues.is_empty(),
        "expected issues for empty required fields"
    );
    let messages: Vec<&str> = issues.iter().map(|i| i.message.as_str()).collect();
    assert!(
        messages.contains(&"id is empty"),
        "missing 'id is empty': {messages:?}"
    );
    assert!(
        messages.contains(&"name is empty"),
        "missing 'name is empty': {messages:?}"
    );
    assert!(
        messages.contains(&"summary is empty"),
        "missing 'summary is empty': {messages:?}"
    );
    assert!(
        messages.contains(&"detailed_explanation is empty"),
        "missing 'detailed_explanation is empty': {messages:?}"
    );
}

#[test]
fn duplicate_category_code_fails() {
    let files = one_file(
        "test.toml",
        vec![
            valid_entry("test.dup.a", "budget", 1),
            valid_entry("test.dup.b", "budget", 1),
        ],
    );
    let issues = lint_files(&files);
    let dup_issues = matching(&issues, "duplicate");
    assert_eq!(
        dup_issues.len(),
        1,
        "expected 1 duplicate issue, got {dup_issues:?}",
    );
}

#[test]
fn malformed_documentation_url_fails() {
    let mut entry = valid_entry("test.bad.url", "budget", 42);
    entry.documentation_url = Some("not a url".to_string());
    let issues = lint_files(&one_file("test.toml", vec![entry]));
    let url_issues = matching(&issues, "documentation_url");
    assert_eq!(
        url_issues.len(),
        1,
        "expected 1 url issue, got {url_issues:?}",
    );
}

#[test]
fn valid_documentation_url_passes() {
    let mut entry = valid_entry("test.good.url", "budget", 43);
    entry.documentation_url = Some("https://example.com/docs".to_string());
    let issues = lint_files(&one_file("test.toml", vec![entry]));
    let url_issues = matching(&issues, "documentation_url");
    assert!(
        url_issues.is_empty(),
        "expected no url issues, got {url_issues:?}",
    );
}

#[test]
fn bad_severity_fails() {
    let mut entry = valid_entry("test.bad.severity", "budget", 44);
    entry.severity = "BadSeverity".to_string();
    let issues = lint_files(&one_file("test.toml", vec![entry]));
    let sev_issues = matching(&issues, "severity");
    assert_eq!(
        sev_issues.len(),
        1,
        "expected 1 severity issue, got {sev_issues:?}",
    );
}

#[test]
fn since_protocol_zero_fails() {
    let mut entry = valid_entry("test.bad.sp", "budget", 45);
    entry.since_protocol = Some(0);
    let issues = lint_files(&one_file("test.toml", vec![entry]));
    let sp_issues = matching(&issues, "since_protocol");
    assert_eq!(
        sp_issues.len(),
        1,
        "expected 1 since_protocol issue, got {sp_issues:?}",
    );
}

#[test]
fn deprecated_before_since_fails() {
    let mut entry = valid_entry("test.bad.depr", "budget", 46);
    entry.since_protocol = Some(20);
    entry.deprecated_protocol = Some(15);
    let issues = lint_files(&one_file("test.toml", vec![entry]));
    let dep_issues = matching(&issues, "deprecated_protocol");
    assert_eq!(
        dep_issues.len(),
        1,
        "expected 1 deprecated_protocol issue, got {dep_issues:?}",
    );
}

#[test]
fn unresolved_related_error_fails() {
    let mut entry = valid_entry("test.rel", "budget", 47);
    entry.related_errors = vec!["nonexistent.id".to_string()];
    let issues = lint_files(&one_file("test.toml", vec![entry]));
    let rel_issues = matching(&issues, "related_errors");
    assert_eq!(
        rel_issues.len(),
        1,
        "expected 1 related_errors issue, got {rel_issues:?}",
    );
}

#[test]
fn messages_are_exact() {
    let mut entry = valid_entry("e.1", "budget", 7);
    entry.severity = "Loud".to_string();
    entry.since_protocol = Some(21);
    entry.deprecated_protocol = Some(20);
    entry.documentation_url = Some("::".to_string());
    let issues = lint_files(&one_file("a.toml", vec![entry]));
    let messages: Vec<&str> = issues.iter().map(|i| i.message.as_str()).collect();
    assert_eq!(
        messages,
        vec![
            "invalid severity 'Loud': must be one of Error, Warning, Info, Fatal",
            "deprecated_protocol (20) must be >= since_protocol (21)",
            "documentation_url '::' is not a valid URL",
        ]
    );
    assert!(issues.iter().all(|i| i.file == "a.toml" && i.entry_id.as_deref() == Some("e.1")));
}

#[test]
fn whitespace_only_fields_are_empty() {
    let mut entry = valid_entry("id", "budget", 1);
    entry.name = " \t\u{a0}\n".to_string();
    let issues = lint_files(&one_file("a.toml", vec![entry]));
    assert_eq!(issues.len(), 1);
    assert_eq!(issues[0].message, "name is empty");
}

#[test]
fn every_file_is_checked_and_errors_come_first() {
    let files = vec![
        TaxonomyFile {
            file_name: "broken.toml".to_string(),
            content: TaxonomyFileContent::Malformed("expected `=`".to_string()),
        },
        TaxonomyFile {
            file_name: "gone.toml".to_string(),
            content: TaxonomyFileContent::Unreadable("permission denied".to_string()),
        },
        TaxonomyFile {
            file_name: "a.toml".to_string(),
            content: TaxonomyFileContent::Entries(vec![valid_entry("x", "budget", 1)]),
        },
        TaxonomyFile {
            file_name: "b.toml".to_string(),
            content: TaxonomyFileContent::Entries(vec![
                valid_entry("y", "budget", 1),
                valid_entry("z", "budget", 1),
            ]),
        },
    ];
    let issues = lint_files(&files);
    assert_eq!(issues.len(), 4);
    assert_eq!(issues[0].file, "broken.toml");
    assert_eq!(issues[0].entry_id, None);
    assert_eq!(issues[0].message, "TOML parse error: expected `=`");
    assert_eq!(issues[1].message, "Cannot read file: permission denied");
    assert_eq!(issues[2].file, "b.toml");
    assert_eq!(issues[2].entry_id.as_deref(), Some("y"));
    assert_eq!(
        issues[2].message,
        "duplicate (category, code) pair (budget, 1) already defined in a.toml"
    );
    assert_eq!(issues[3].entry_id.as_deref(), Some("z"));
    assert_eq!(
        issues[3].message,
        "duplicate (category, code) pair (budget, 1) already defined in a.toml"
    );
}

#[test]
fn related_errors_resolve_across_files() {
    let mut a = valid_entry("a.1", "budget", 1);
    a.related_errors = vec!["b.1".to_string(), "c.9".to_string()];
    let files = vec![
        TaxonomyFile {
            file_name: "a.toml".to_string(),
            content: TaxonomyFileContent::Entries(vec![a]),
        },
        TaxonomyFile {
            file_name: "b.toml".to_string(),
            content: TaxonomyFileContent::Entries(vec![valid_entry("b.1", "storage", 1)]),
        },
    ];
    let issues = lint_files(&files);
    assert_eq!(issues.len(), 1);
    assert_eq!(
        issues[0].message,
        "related_errors references 'c.9' which does not exist in any loaded file"
    );
}
