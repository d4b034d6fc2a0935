use grat::summary::{severity_label, severity_weight, DiagnosticReport, ErrorSummaryList, Severity};

fn report(category: &str, name: &str, severity: Severity, summary: &str) -> DiagnosticReport {
    DiagnosticReport {
        error_category: category.to_string(),
        error_name: name.to_string(),
        severity,
        summary: summary.to_string(),
    }
}

#[test]
fn severity_weight_reads_labels() {
    assert_eq!(severity_weight("FATAL"), 4);
    assert_eq!(severity_weight("\u{1b}[1;31mFATAL\u{1b}[0m"), 4);
    assert_eq!(severity_weight("ERROR"), 3);
    assert_eq!(severity_weight("\u{1b}[31mERROR\u{1b}[0m"), 3);
    assert_eq!(severity_weight("WARN"), 2);
    assert_eq!(severity_weight("INFO"), 1);
    assert_eq!(severity_weight(""), 1);
}

#[test]
fn labels_weigh_as_severities_rank() {
    assert_eq!(severity_weight(severity_label(Severity::Fatal)), 4);
    assert_eq!(severity_weight(severity_label(Severity::Error)), 3);
    assert_eq!(severity_weight(severity_label(Severity::Warning)), 2);
    assert_eq!(severity_weight(severity_label(Severity::Info)), 1);
}

#[test]
fn rows_group_count_and_sort() {
    let reports = vec![
        report("budget", "CpuLimit", Severity::Warning, "first warning"),
        report("storage", "Missing", Severity::Error, "missing entry"),
        report("budget", "CpuLimit", Severity::Warning, "second warning"),
        report("auth", "Denied", Severity::Fatal, "denied"),
        report("budget", "CpuLimit", Severity::Warning, "third warning"),
        report("storage", "Missing", Severity::Error, "missing again"),
        report("storage", "Archived", Severity::Error, "archived"),
        report("budget", "CpuLimit", Severity::Info, "note"),
    ];
    let rows = ErrorSummaryList::rows(&reports);
    let got: Vec<(Severity, &str, &str, usize, &str)> = rows
        .iter()
        .map(|r| (r.severity, r.category.as_str(), r.name.as_str(), r.count, r.message.as_str()))
        .collect();
    assert_eq!(
        got,
        vec![
            (Severity::Fatal, "auth", "Denied", 1, "denied"),
            (Severity::Error, "storage", "Missing", 2, "missing entry"),
            (Severity::Error, "storage", "Archived", 1, "archived"),
            (Severity::Warning, "budget", "CpuLimit", 3, "first warning"),
            (Severity::Info, "budget", "CpuLimit", 1, "note"),
        ]
    );
    let total: usize = rows.iter().map(|r| r.count).sum();
    assert_eq!(total, reports.len());
}

#[test]
fn no_reports_no_rows() {
    assert!(ErrorSummaryList::rows(&Vec::new()).is_empty());
}

#[test]
fn decorated_labels_keep_their_weight() {
    for (sev, w) in [(Severity::Fatal, 4), (Severity::Error, 3), (Severity::Warning, 2), (Severity::Info, 1)] {
        let decorated = format!("\u{1b}[1;34m{}\u{1b}[0m", severity_label(sev));
        assert_eq!(severity_weight(&decorated), w);
    }
}
