//! Summaries of a batch of diagnostic reports: one row per kind of error,
//! with how often it occurred, the most severe kinds first.

use vstd::prelude::*;

use crate::text::{contains_seq, occurs_at, str_contains};

verus! {

/// How severe a reported error is.
#[derive(Clone, Copy, Debug, PartialEq, Eq, Structural)]
pub enum Severity {
    Fatal,
    Error,
    Warning,
    Info,
}

/// A decoded diagnostic, as far as summaries read it.
#[derive(Debug, Clone, PartialEq, Eq)]
pub struct DiagnosticReport {
    pub error_category: String,
    pub error_name: String,
    pub severity: Severity,
    /// A one-line description of the error.
    pub summary: String,
}

/// One row of a summary: a kind of error (category, name and severity), how
/// many reports had it, and the summary of the first of them.
#[derive(Debug, Clone, PartialEq, Eq)]
pub struct ErrorSummaryRow {
    pub severity: Severity,
    pub category: String,
    pub name: String,
    pub count: usize,
    pub message: String,
}

/// Summaries of batches of diagnostic reports.
#[derive(Debug, Clone, Copy, Default)]
pub struct ErrorSummaryList;

/// The weight of a severity label: 4 for one that mentions `FATAL`, else 3
/// for `ERROR`, else 2 for `WARN`, else 1.
pub open spec fn weight_of_label(s: Seq<char>) -> u8 {
    if contains_seq(s, "FATAL"@) {
        4
    } else if contains_seq(s, "ERROR"@) {
        3
    } else if contains_seq(s, "WARN"@) {
        2
    } else {
        1
    }
}

/// The weight by which summaries order severity labels, however they are
/// decorated: a label that mentions `FATAL` weighs 4, else `ERROR` 3, else
/// `WARN` 2, and any other 1.
pub fn severity_weight(sev_str: &str) -> (w: u8)
    ensures
        w == weight_of_label(sev_str@),
{
    if str_contains(sev_str, "FATAL") {
        4
    } else if str_contains(sev_str, "ERROR") {
        3
    } else if str_contains(sev_str, "WARN") {
        2
    } else {
        1
    }
}

/// The label of a severity in a summary.
pub open spec fn label_of(s: Severity) -> Seq<char> {
    match s {
        Severity::Fatal => "FATAL"@,
        Severity::Error => "ERROR"@,
        Severity::Warning => "WARN"@,
        Severity::Info => "INFO"@,
    }
}

/// The label of a severity in a summary: `FATAL`, `ERROR`, `WARN` or `INFO`.
pub fn severity_label(s: Severity) -> (res: &'static str)
    ensures
        res@ == label_of(s),
{
    match s {
        Severity::Fatal => "FATAL",
        Severity::Error => "ERROR",
        Severity::Warning => "WARN",
        Severity::Info => "INFO",
    }
}

/// The rank of a severity: fatal errors first, then errors, warnings, notes.
pub open spec fn rank(s: Severity) -> u8 {
    match s {
        Severity::Fatal => 4,
        Severity::Error => 3,
        Severity::Warning => 2,
        Severity::Info => 1,
    }
}

/// A text contains itself.
proof fn lemma_contains_self(s: Seq<char>)
    ensures
        contains_seq(s, s),
{
    assert(s.subrange(0, s.len() as int) =~= s);
    assert(occurs_at(s, s, 0));
}

/// A text does not contain a pattern that is longer than it, or as long and
/// with another first character.
proof fn lemma_not_contains(s: Seq<char>, pat: Seq<char>)
    requires
        s.len() < pat.len() || (s.len() == pat.len() && s.len() > 0 && s[0] != pat[0]),
    ensures
        !contains_seq(s, pat),
{
    assert forall|i: int| !occurs_at(s, pat, i) by {
        if occurs_at(s, pat, i) {
            assert(i == 0);
            assert(s.subrange(i, i + pat.len())[0] == pat[0]);
        }
    }
}

/// The weight of each severity's label is its rank: summaries order the
/// labels as the severities rank.
pub proof fn lemma_label_weight_is_rank(s: Severity)
    ensures
        weight_of_label(label_of(s)) == rank(s),
{
    reveal_strlit("FATAL");
    reveal_strlit("ERROR");
    reveal_strlit("WARN");
    reveal_strlit("INFO");
    match s {
        Severity::Fatal => {
            lemma_contains_self("FATAL"@);
        },
        Severity::Error => {
            lemma_not_contains("ERROR"@, "FATAL"@);
            lemma_contains_self("ERROR"@);
        },
        Severity::Warning => {
            lemma_not_contains("WARN"@, "FATAL"@);
            lemma_not_contains("WARN"@, "ERROR"@);
            lemma_contains_self("WARN"@);
        },
        Severity::Info => {
            lemma_not_contains("INFO"@, "FATAL"@);
            lemma_not_contains("INFO"@, "ERROR"@);
            lemma_not_contains("INFO"@, "WARN"@);
        },
    }
}

/// `pat` occurs in `p + l + q` only where it occurs in `l`, when it occurs in
/// neither `p` nor `q`, no character of it but the first is `l`'s first, and
/// no end of `l` shorter than `pat` is a start of `pat`.
proof fn lemma_decorated_contains(p: Seq<char>, l: Seq<char>, q: Seq<char>, pat: Seq<char>)
    requires
        l.len() > 0,
        !contains_seq(p, pat),
        !contains_seq(q, pat),
        forall|i: int| 1 <= i < pat.len() ==> pat[i] != l[0],
        forall|k: int|
            0 < k < pat.len() && k <= l.len() ==> #[trigger] l.subrange(l.len() - k, l.len() as int)
                != pat.subrange(0, k),
    ensures
        contains_seq(p + l + q, pat) == contains_seq(l, pat),
{
    let s = p + l + q;
    let a = p.len() as int;
    let b = a + l.len();
    let m = pat.len() as int;
    if contains_seq(l, pat) {
        let j = choose|j: int| occurs_at(l, pat, j);
        assert(s.subrange(a + j, a + j + m) =~= l.subrange(j, j + m));
        assert(occurs_at(s, pat, a + j));
    }
    if contains_seq(s, pat) {
        let i = choose|i: int| occurs_at(s, pat, i);
        if i + m <= a {
            assert(s.subrange(i, i + m) =~= p.subrange(i, i + m));
            assert(occurs_at(p, pat, i));
        } else if i < a {
            assert(s.subrange(i, i + m)[a - i] == s[a]);
            assert(s[a] == l[0]);
        } else if i >= b {
            assert(s.subrange(i, i + m) =~= q.subrange(i - b, i - b + m));
            assert(occurs_at(q, pat, i - b));
        } else if i + m <= b {
            assert(s.subrange(i, i + m) =~= l.subrange(i - a, i - a + m));
            assert(occurs_at(l, pat, i - a));
        } else {
            let k = b - i;
            assert(l.subrange(l.len() - k, l.len() as int) =~= s.subrange(i, i + m).subrange(0, k));
            assert(s.subrange(i, i + m).subrange(0, k) =~= pat.subrange(0, k));
        }
    }
}

/// An end of `l` of length `k` differs from the start of `pat` in its first
/// or second character.
spec fn tail_apart(l: Seq<char>, pat: Seq<char>, k: int) -> bool {
    l[l.len() - k] != pat[0] || (k >= 2 && l[l.len() - k + 1] != pat[1])
}

/// The label `l` meets the conditions of `lemma_decorated_contains` for `pat`.
proof fn lemma_label_apart(l: Seq<char>, pat: Seq<char>)
    requires
        l.len() == 4 || l.len() == 5,
        pat.len() == 4 || pat.len() == 5,
        pat[1] != l[0] && pat[2] != l[0] && pat[3] != l[0],
        pat.len() == 5 ==> pat[4] != l[0],
        tail_apart(l, pat, 1) && tail_apart(l, pat, 2) && tail_apart(l, pat, 3),
        pat.len() == 5 ==> tail_apart(l, pat, 4),
    ensures
        forall|i: int| 1 <= i < pat.len() ==> pat[i] != l[0],
        forall|k: int|
            0 < k < pat.len() && k <= l.len() ==> #[trigger] l.subrange(l.len() - k, l.len() as int)
                != pat.subrange(0, k),
{
    assert forall|k: int| 0 < k < pat.len() && k <= l.len() implies #[trigger] l.subrange(
        l.len() - k,
        l.len() as int,
    ) != pat.subrange(0, k) by {
        assert(tail_apart(l, pat, k));
        let e = l.subrange(l.len() - k, l.len() as int);
        assert(e[0] == l[l.len() - k]);
        if k >= 2 {
            assert(e[1] == l[l.len() - k + 1]);
            assert(pat.subrange(0, k)[1] == pat[1]);
        }
        assert(pat.subrange(0, k)[0] == pat[0]);
    }
}

/// Decorating a severity's label, as colouring it does, keeps its weight:
/// whatever comes before and after the label, so long as neither mentions
/// `FATAL`, `ERROR` or `WARN`, the label weighs its severity's rank.
pub proof fn lemma_decorated_label_weight(p: Seq<char>, s: Severity, q: Seq<char>)
    requires
        !contains_seq(p, "FATAL"@),
        !contains_seq(p, "ERROR"@),
        !contains_seq(p, "WARN"@),
        !contains_seq(q, "FATAL"@),
        !contains_seq(q, "ERROR"@),
        !contains_seq(q, "WARN"@),
    ensures
        weight_of_label(p + label_of(s) + q) == rank(s),
{
    reveal_strlit("FATAL");
    reveal_strlit("ERROR");
    reveal_strlit("WARN");
    reveal_strlit("INFO");
    let l = label_of(s);
    lemma_label_apart(l, "FATAL"@);
    lemma_label_apart(l, "ERROR"@);
    lemma_label_apart(l, "WARN"@);
    lemma_decorated_contains(p, l, q, "FATAL"@);
    lemma_decorated_contains(p, l, q, "ERROR"@);
    lemma_decorated_contains(p, l, q, "WARN"@);
    lemma_label_weight_is_rank(s);
}

/// The kind of error a report is about: category, name and severity.
pub type ReportKey = (Seq<char>, Seq<char>, Severity);

/// The kind of error of a report.
pub open spec fn report_key(r: DiagnosticReport) -> ReportKey {
    (r.error_category@, r.error_name@, r.severity)
}

/// The kind of error a row stands for.
pub open spec fn row_key(r: ErrorSummaryRow) -> ReportKey {
    (r.category@, r.name@, r.severity)
}

/// Some report of `rs` is of kind `k`.
pub open spec fn key_seen(rs: Seq<DiagnosticReport>, k: ReportKey) -> bool
    decreases rs.len(),
{
    rs.len() > 0 && (key_seen(rs.drop_last(), k) || report_key(rs.last()) == k)
}

/// How many reports of `rs` are of kind `k`.
pub open spec fn key_count(rs: Seq<DiagnosticReport>, k: ReportKey) -> nat
    decreases rs.len(),
{
    if rs.len() == 0 {
        0
    } else {
        key_count(rs.drop_last(), k) + if report_key(rs.last()) == k {
            1nat
        } else {
            0nat
        }
    }
}

/// The summary of the first report of `rs` of kind `k`.
pub open spec fn first_summary(rs: Seq<DiagnosticReport>, k: ReportKey) -> Seq<char>
    decreases rs.len(),
{
    if rs.len() == 0 {
        Seq::empty()
    } else if key_seen(rs.drop_last(), k) {
        first_summary(rs.drop_last(), k)
    } else {
        rs.last().summary@
    }
}

/// `row` sums up the reports of its kind among `rs`: there is one, the count
/// is how many there are, and the message is the first one's summary.
pub open spec fn row_summarizes(row: ErrorSummaryRow, rs: Seq<DiagnosticReport>) -> bool {
    &&& key_seen(rs, row_key(row))
    &&& row.count == key_count(rs, row_key(row))
    &&& row.message@ == first_summary(rs, row_key(row))
}

/// No two rows stand for the same kind of error.
pub open spec fn distinct_keys(rows: Seq<ErrorSummaryRow>) -> bool {
    forall|a: int, b: int|
        0 <= a < rows.len() && 0 <= b < rows.len() && a != b ==> row_key(#[trigger] rows[a])
            != row_key(#[trigger] rows[b])
}

/// Each row sums up its kind of error in `rs`, and each kind in `rs` has a row.
pub open spec fn rows_cover(rows: Seq<ErrorSummaryRow>, rs: Seq<DiagnosticReport>) -> bool {
    &&& forall|i: int| 0 <= i < rows.len() ==> row_summarizes(#[trigger] rows[i], rs)
    &&& forall|k: ReportKey| key_seen(rs, k) ==> exists|i: int| 0 <= i < rows.len() && row_key(#[trigger] rows[i]) == k
    &&& distinct_keys(rows)
}

/// `a` may come before `b`: it is more severe, or as severe and at least as frequent.
pub open spec fn ranks_before(a: ErrorSummaryRow, b: ErrorSummaryRow) -> bool {
    rank(a.severity) > rank(b.severity) || (rank(a.severity) == rank(b.severity) && a.count
        >= b.count)
}

/// The rows go from the most severe kinds to the least, and within a
/// severity from the most frequent to the least.
pub open spec fn rows_sorted(rows: Seq<ErrorSummaryRow>) -> bool {
    forall|a: int, b: int| 0 <= a < b < rows.len() ==> ranks_before(#[trigger] rows[a], #[trigger] rows[b])
}

/// Counting and first summaries grow with the reports, one at a time.
proof fn lemma_push_report(rs: Seq<DiagnosticReport>, x: DiagnosticReport, k: ReportKey)
    ensures
        key_seen(rs.push(x), k) == (key_seen(rs, k) || report_key(x) == k),
        key_count(rs.push(x), k) == key_count(rs, k) + if report_key(x) == k {
            1nat
        } else {
            0nat
        },
        first_summary(rs.push(x), k) == if key_seen(rs, k) {
            first_summary(rs, k)
        } else {
            x.summary@
        },
{
    assert(rs.push(x).drop_last() =~= rs);
}

/// A kind that no report has is counted zero times.
proof fn lemma_unseen_count(rs: Seq<DiagnosticReport>, k: ReportKey)
    requires
        !key_seen(rs, k),
    ensures
        key_count(rs, k) == 0,
    decreases rs.len(),
{
    if rs.len() > 0 {
        lemma_unseen_count(rs.drop_last(), k);
    }
}

/// The position of the row for the kind of `r`, if there is one.
fn find_row(rows: &Vec<ErrorSummaryRow>, r: &DiagnosticReport) -> (res: Option<usize>)
    ensures
        match res {
            Some(j) => j < rows@.len() && row_key(rows@[j as int]) == report_key(*r),
            None => forall|j: int| 0 <= j < rows@.len() ==> row_key(#[trigger] rows@[j]) != report_key(*r),
        },
{
    let mut j: usize = 0;
    while j < rows.len()
        invariant
            j <= rows@.len(),
            forall|q: int| 0 <= q < j ==> row_key(#[trigger] rows@[q]) != report_key(*r),
        decreases rows@.len() - j,
    {
        let row = &rows[j];
        if row.severity == r.severity && row.category == r.error_category && row.name == r.error_name {
            return Some(j);
        }
        j = j + 1;
    }
    None
}

/// One row per kind of error among the reports, in the order in which the
/// kinds first occur.
fn group_reports(reports: &Vec<DiagnosticReport>) -> (rows: Vec<ErrorSummaryRow>)
    ensures
        rows_cover(rows@, reports@),
{
    let mut rows: Vec<ErrorSummaryRow> = Vec::new();
    let mut i: usize = 0;
    while i < reports.len()
        invariant
            i <= reports@.len(),
            rows_cover(rows@, reports@.take(i as int)),
            forall|g: int| 0 <= g < rows@.len() ==> (#[trigger] rows@[g]).count <= i,
        decreases reports@.len() - i,
    {
        let r = &reports[i];
        let ghost prev = reports@.take(i as int);
        let ghost next = reports@.take(i + 1);
        assert(next =~= prev.push(*r));
        let ghost old_rows = rows@;
        match find_row(&rows, r) {
            Some(j) => {
                let mut row = rows.remove(j);
                row.count = row.count + 1;
                rows.insert(j, row);
                assert(rows@ =~= old_rows.update(j as int, row));
                assert forall|g: int| 0 <= g < rows@.len() implies row_summarizes(#[trigger] rows@[g], next) by {
                    lemma_push_report(prev, *r, row_key(rows@[g]));
                }
                assert forall|k: ReportKey| key_seen(next, k) implies exists|g: int| 0 <= g < rows@.len() && row_key(#[trigger] rows@[g]) == k by {
                    lemma_push_report(prev, *r, k);
                    if !key_seen(prev, k) {
                        assert(row_key(rows@[j as int]) == k);
                    } else {
                        let g = choose|g: int| 0 <= g < old_rows.len() && row_key(#[trigger] old_rows[g]) == k;
                        assert(row_key(rows@[g]) == k);
                    }
                }
            },
            None => {
                proof {
                    if key_seen(prev, report_key(*r)) {
                        let g = choose|g: int| 0 <= g < old_rows.len() && row_key(#[trigger] old_rows[g]) == report_key(*r);
                        assert(false);
                    }
                    lemma_unseen_count(prev, report_key(*r));
                }
                let row = ErrorSummaryRow {
                    severity: r.severity,
                    category: r.error_category.clone(),
                    name: r.error_name.clone(),
                    count: 1,
                    message: r.summary.clone(),
                };
                rows.push(row);
                assert forall|g: int| 0 <= g < rows@.len() implies row_summarizes(#[trigger] rows@[g], next) by {
                    lemma_push_report(prev, *r, row_key(rows@[g]));
                }
                assert forall|k: ReportKey| key_seen(next, k) implies exists|g: int| 0 <= g < rows@.len() && row_key(#[trigger] rows@[g]) == k by {
                    lemma_push_report(prev, *r, k);
                    if !key_seen(prev, k) {
                        assert(row_key(rows@[old_rows.len() as int]) == k);
                    } else {
                        let g = choose|g: int| 0 <= g < old_rows.len() && row_key(#[trigger] old_rows[g]) == k;
                        assert(row_key(rows@[g]) == k);
                    }
                }
            },
        }
        i = i + 1;
    }
    assert(reports@.take(i as int) =~= reports@);
    rows
}

/// The rank of a row's severity, as the weight of its label.
fn row_rank(row: &ErrorSummaryRow) -> (r: u8)
    ensures
        r == rank(row.severity),
{
    proof {
        lemma_label_weight_is_rank(row.severity);
    }
    severity_weight(severity_label(row.severity))
}

/// Where `x` goes among the sorted rows `out`: before the first row that it
/// must precede, after all rows that rank as high.
fn insertion_point(out: &Vec<ErrorSummaryRow>, x: &ErrorSummaryRow) -> (p: usize)
    ensures
        p <= out@.len(),
        forall|q: int| 0 <= q < p ==> ranks_before(#[trigger] out@[q], *x),
        p < out@.len() ==> !ranks_before(out@[p as int], *x),
{
    let xr = row_rank(x);
    let mut p: usize = 0;
    while p < out.len()
        invariant
            p <= out@.len(),
            xr == rank(x.severity),
            forall|q: int| 0 <= q < p ==> ranks_before(#[trigger] out@[q], *x),
        decreases out@.len() - p,
    {
        let yr = row_rank(&out[p]);
        if xr > yr || (xr == yr && x.count > out[p].count) {
            return p;
        }
        p = p + 1;
    }
    p
}

/// `x` is one of the first `i` rows of `orig`.
pub open spec fn in_prefix(x: ErrorSummaryRow, orig: Seq<ErrorSummaryRow>, i: int) -> bool {
    exists|j: int| 0 <= j < i && orig[j] == x
}

/// `x` is one of the rows `s`.
pub open spec fn in_seq(x: ErrorSummaryRow, s: Seq<ErrorSummaryRow>) -> bool {
    exists|q: int| 0 <= q < s.len() && s[q] == x
}

/// Inserting `x`, the row at position `i` of `orig`, into rows taken from the
/// first `i` rows of `orig` gives rows taken from the first `i + 1`.
proof fn lemma_insert_members(
    s: Seq<ErrorSummaryRow>,
    x: ErrorSummaryRow,
    p: int,
    orig: Seq<ErrorSummaryRow>,
    i: int,
)
    requires
        0 <= p <= s.len(),
        0 <= i < orig.len(),
        x == orig[i],
        forall|q: int| 0 <= q < s.len() ==> in_prefix(#[trigger] s[q], orig, i),
        forall|j: int| 0 <= j < i ==> in_seq(#[trigger] orig[j], s),
    ensures
        forall|q: int| 0 <= q < s.insert(p, x).len() ==> in_prefix(#[trigger] s.insert(p, x)[q], orig, i + 1),
        forall|j: int| 0 <= j < i + 1 ==> in_seq(#[trigger] orig[j], s.insert(p, x)),
{
    let t = s.insert(p, x);
    assert forall|q: int| 0 <= q < t.len() implies in_prefix(#[trigger] t[q], orig, i + 1) by {
        if q < p {
            assert(t[q] == s[q]);
            assert(in_prefix(s[q], orig, i));
            let j = choose|j: int| 0 <= j < i && orig[j] == s[q];
            assert(0 <= j < i + 1 && orig[j] == t[q]);
        } else if q == p {
            assert(t[q] == orig[i]);
            assert(0 <= i < i + 1 && orig[i] == t[q]);
        } else {
            assert(t[q] == s[q - 1]);
            assert(in_prefix(s[q - 1], orig, i));
            let j = choose|j: int| 0 <= j < i && orig[j] == s[q - 1];
            assert(0 <= j < i + 1 && orig[j] == t[q]);
        }
    }
    assert forall|j: int| 0 <= j < i + 1 implies in_seq(#[trigger] orig[j], t) by {
        if j == i {
            assert(t[p] == orig[j]);
        } else {
            assert(in_seq(orig[j], s));
            let q = choose|q: int| 0 <= q < s.len() && s[q] == orig[j];
            if q < p {
                assert(t[q] == orig[j]);
            } else {
                assert(t[q + 1] == orig[j]);
            }
        }
    }
}

/// Inserting a row of a kind that none of the rows has keeps the kinds distinct.
proof fn lemma_insert_keeps_distinct(
    s: Seq<ErrorSummaryRow>,
    x: ErrorSummaryRow,
    p: int,
    orig: Seq<ErrorSummaryRow>,
    i: int,
)
    requires
        0 <= p <= s.len(),
        0 <= i < orig.len(),
        x == orig[i],
        distinct_keys(orig),
        distinct_keys(s),
        forall|q: int| 0 <= q < s.len() ==> in_prefix(#[trigger] s[q], orig, i),
    ensures
        distinct_keys(s.insert(p, x)),
{
    let t = s.insert(p, x);
    assert forall|a: int, b: int|
        0 <= a < t.len() && 0 <= b < t.len() && a != b implies row_key(#[trigger] t[a])
            != row_key(#[trigger] t[b]) by {
        if a == p || b == p {
            let other = if a == p { b } else { a };
            let oq = if other < p { other } else { other - 1 };
            assert(t[other] == s[oq]);
            assert(in_prefix(s[oq], orig, i));
            let j = choose|j: int| 0 <= j < i && orig[j] == s[oq];
            assert(row_key(orig[j]) != row_key(orig[i]));
        } else {
            let oa = if a < p { a } else { a - 1 };
            let ob = if b < p { b } else { b - 1 };
            assert(t[a] == s[oa]);
            assert(t[b] == s[ob]);
        }
    }
}

/// Inserting a row after the rows that rank as high as it and before the
/// first that it outranks keeps the rows sorted.
proof fn lemma_insert_keeps_sorted(s: Seq<ErrorSummaryRow>, x: ErrorSummaryRow, p: int)
    requires
        0 <= p <= s.len(),
        rows_sorted(s),
        forall|q: int| 0 <= q < p ==> ranks_before(#[trigger] s[q], x),
        p < s.len() ==> !ranks_before(s[p], x),
    ensures
        rows_sorted(s.insert(p, x)),
{
    let t = s.insert(p, x);
    assert forall|a: int, b: int| 0 <= a < b < t.len() implies ranks_before(#[trigger] t[a], #[trigger] t[b]) by {
        let oa = if a < p { a } else { a - 1 };
        let ob = if b < p { b } else { b - 1 };
        if a == p {
            assert(t[b] == s[ob]);
            if ob > p {
                assert(ranks_before(s[p], s[ob]));
            }
        } else if b == p {
            assert(t[a] == s[oa]);
        } else {
            assert(t[a] == s[oa]);
            assert(t[b] == s[ob]);
        }
    }
}

/// The rows in summary order, most severe first and, within a severity, most
/// frequent first; rows that rank alike keep their order.
fn sort_rows(rows: Vec<ErrorSummaryRow>) -> (out: Vec<ErrorSummaryRow>)
    requires
        distinct_keys(rows@),
    ensures
        forall|q: int| 0 <= q < out@.len() ==> in_prefix(#[trigger] out@[q], rows@, rows@.len() as int),
        forall|j: int| 0 <= j < rows@.len() ==> in_seq(#[trigger] rows@[j], out@),
        distinct_keys(out@),
        rows_sorted(out@),
{
    let ghost orig = rows@;
    let total: usize = rows.len();
    let mut rest = rows;
    let mut out: Vec<ErrorSummaryRow> = Vec::new();
    let mut i: usize = 0;
    while rest.len() > 0
        invariant
            orig == rows@,
            orig.len() == total,
            distinct_keys(orig),
            i <= orig.len(),
            rest@ == orig.skip(i as int),
            forall|q: int| 0 <= q < out@.len() ==> in_prefix(#[trigger] out@[q], orig, i as int),
            forall|j: int| 0 <= j < i ==> in_seq(#[trigger] orig[j], out@),
            distinct_keys(out@),
            rows_sorted(out@),
        decreases rest@.len(),
    {
        let x = rest.remove(0);
        assert(x == orig[i as int]);
        let p = insertion_point(&out, &x);
        let ghost old_out = out@;
        out.insert(p, x);
        assert(out@ =~= old_out.insert(p as int, x));
        proof {
            lemma_insert_members(old_out, x, p as int, orig, i as int);
            lemma_insert_keeps_distinct(old_out, x, p as int, orig, i as int);
            lemma_insert_keeps_sorted(old_out, x, p as int);
        }
        i = i + 1;
        assert(rest@ =~= orig.skip(i as int));
    }
    assert(i == orig.len());
    out
}

/// The rows of a summary of `reports`: one row per kind of error (category,
/// name and severity) with how many reports had it and the summary of the
/// first of them; the most severe kinds first and, within a severity, the
/// most frequent first.
pub open spec fn summarizes(rows: Seq<ErrorSummaryRow>, reports: Seq<DiagnosticReport>) -> bool {
    rows_cover(rows, reports) && rows_sorted(rows)
}

/// The sum of the counts of the rows.
pub open spec fn total_count(rows: Seq<ErrorSummaryRow>) -> int
    decreases rows.len(),
{
    if rows.len() == 0 {
        0
    } else {
        total_count(rows.drop_last()) + rows.last().count
    }
}

/// The sum, over the kinds `ks`, of how many reports of `rs` are of each kind.
spec fn sum_key_counts(rs: Seq<DiagnosticReport>, ks: Seq<ReportKey>) -> int
    decreases ks.len(),
{
    if ks.len() == 0 {
        0
    } else {
        sum_key_counts(rs, ks.drop_last()) + key_count(rs, ks.last())
    }
}

/// How many of the kinds `ks` are `k`.
spec fn times_listed(ks: Seq<ReportKey>, k: ReportKey) -> int
    decreases ks.len(),
{
    if ks.len() == 0 {
        0
    } else {
        times_listed(ks.drop_last(), k) + if ks.last() == k {
            1int
        } else {
            0int
        }
    }
}

/// How many reports of `rs` are of one of the kinds `ks`.
spec fn reports_of_kinds(rs: Seq<DiagnosticReport>, ks: Seq<ReportKey>) -> int
    decreases rs.len(),
{
    if rs.len() == 0 {
        0
    } else {
        reports_of_kinds(rs.drop_last(), ks) + if ks.contains(report_key(rs.last())) {
            1int
        } else {
            0int
        }
    }
}

/// A kind is listed once in a list without repetitions that holds it, and
/// otherwise not at all.
proof fn lemma_times_listed(ks: Seq<ReportKey>, k: ReportKey)
    requires
        forall|a: int, b: int| 0 <= a < ks.len() && 0 <= b < ks.len() && a != b ==> ks[a] != ks[b],
    ensures
        times_listed(ks, k) == if ks.contains(k) {
            1int
        } else {
            0int
        },
    decreases ks.len(),
{
    if ks.len() > 0 {
        let rest = ks.drop_last();
        lemma_times_listed(rest, k);
        if ks.last() == k {
            assert(!rest.contains(k)) by {
                if rest.contains(k) {
                    let a = choose|a: int| 0 <= a < rest.len() && rest[a] == k;
                    assert(ks[a] == ks[ks.len() - 1]);
                }
            }
            assert(ks.contains(k)) by {
                assert(ks[ks.len() - 1] == k);
            }
        } else {
            assert(ks.contains(k) == rest.contains(k)) by {
                if ks.contains(k) {
                    let a = choose|a: int| 0 <= a < ks.len() && ks[a] == k;
                    assert(rest[a] == k);
                }
                if rest.contains(k) {
                    let a = choose|a: int| 0 <= a < rest.len() && rest[a] == k;
                    assert(ks[a] == k);
                }
            }
        }
    }
}

/// One more report adds to the count of its kind only.
proof fn lemma_sum_key_counts_push(rs: Seq<DiagnosticReport>, ks: Seq<ReportKey>)
    requires
        rs.len() > 0,
    ensures
        sum_key_counts(rs, ks) == sum_key_counts(rs.drop_last(), ks) + times_listed(
            ks,
            report_key(rs.last()),
        ),
    decreases ks.len(),
{
    if ks.len() > 0 {
        lemma_sum_key_counts_push(rs, ks.drop_last());
    }
}

/// Summing the counts of distinct kinds counts the reports of those kinds.
proof fn lemma_sum_key_counts(rs: Seq<DiagnosticReport>, ks: Seq<ReportKey>)
    requires
        forall|a: int, b: int| 0 <= a < ks.len() && 0 <= b < ks.len() && a != b ==> ks[a] != ks[b],
    ensures
        sum_key_counts(rs, ks) == reports_of_kinds(rs, ks),
    decreases rs.len(),
{
    if rs.len() == 0 {
        lemma_sum_key_counts_empty(rs, ks);
    } else {
        lemma_sum_key_counts(rs.drop_last(), ks);
        lemma_sum_key_counts_push(rs, ks);
        lemma_times_listed(ks, report_key(rs.last()));
    }
}

/// Without reports every count is zero.
proof fn lemma_sum_key_counts_empty(rs: Seq<DiagnosticReport>, ks: Seq<ReportKey>)
    requires
        rs.len() == 0,
    ensures
        sum_key_counts(rs, ks) == 0,
    decreases ks.len(),
{
    if ks.len() > 0 {
        lemma_sum_key_counts_empty(rs, ks.drop_last());
    }
}

/// When every kind that occurs is listed, every report is of a listed kind.
proof fn lemma_all_reports_of_kinds(rs: Seq<DiagnosticReport>, ks: Seq<ReportKey>)
    requires
        forall|k: ReportKey| key_seen(rs, k) ==> ks.contains(k),
    ensures
        reports_of_kinds(rs, ks) == rs.len(),
    decreases rs.len(),
{
    if rs.len() > 0 {
        assert forall|k: ReportKey| key_seen(rs.drop_last(), k) implies ks.contains(k) by {
            assert(key_seen(rs, k));
        }
        lemma_all_reports_of_kinds(rs.drop_last(), ks);
        assert(key_seen(rs, report_key(rs.last())));
    }
}

/// The counts of rows add up to the counts of their kinds.
proof fn lemma_total_is_sum_of_kinds(rows: Seq<ErrorSummaryRow>, rs: Seq<DiagnosticReport>)
    requires
        forall|i: int| 0 <= i < rows.len() ==> row_summarizes(#[trigger] rows[i], rs),
    ensures
        total_count(rows) == sum_key_counts(rs, rows.map_values(|r: ErrorSummaryRow| row_key(r))),
    decreases rows.len(),
{
    if rows.len() > 0 {
        let rest = rows.drop_last();
        assert forall|i: int| 0 <= i < rest.len() implies row_summarizes(#[trigger] rest[i], rs) by {
            assert(rest[i] == rows[i]);
        }
        lemma_total_is_sum_of_kinds(rest, rs);
        let ks = rows.map_values(|r: ErrorSummaryRow| row_key(r));
        assert(ks.drop_last() =~= rest.map_values(|r: ErrorSummaryRow| row_key(r)));
        assert(row_summarizes(rows[rows.len() - 1], rs));
    }
}

/// Every report is counted once: the counts of a summary add up to the
/// number of reports.
pub proof fn lemma_counts_add_up(rows: Seq<ErrorSummaryRow>, reports: Seq<DiagnosticReport>)
    requires
        summarizes(rows, reports),
    ensures
        total_count(rows) == reports.len(),
{
    let ks = rows.map_values(|r: ErrorSummaryRow| row_key(r));
    lemma_total_is_sum_of_kinds(rows, reports);
    assert forall|a: int, b: int| 0 <= a < ks.len() && 0 <= b < ks.len() && a != b implies ks[a] != ks[b] by {
        assert(row_key(rows[a]) != row_key(rows[b]));
    }
    lemma_sum_key_counts(reports, ks);
    assert forall|k: ReportKey| key_seen(reports, k) implies ks.contains(k) by {
        let i = choose|i: int| 0 <= i < rows.len() && row_key(#[trigger] rows[i]) == k;
        assert(ks[i] == k);
    }
    lemma_all_reports_of_kinds(reports, ks);
}

/// The reports with the given category, name and severity, in order.
pub open spec fn reports_of(
    rs: Seq<DiagnosticReport>,
    category: Seq<char>,
    name: Seq<char>,
    severity: Severity,
) -> Seq<DiagnosticReport> {
    rs.filter(
        |r: DiagnosticReport|
            r.error_category@ == category && r.error_name@ == name && r.severity == severity,
    )
}

/// Counting, finding and the first summary of a kind agree with the reports
/// of that kind picked out one by one.
proof fn lemma_kind_is_reports_of(rs: Seq<DiagnosticReport>, k: ReportKey)
    ensures
        key_count(rs, k) == reports_of(rs, k.0, k.1, k.2).len(),
        key_seen(rs, k) <==> reports_of(rs, k.0, k.1, k.2).len() > 0,
        key_seen(rs, k) ==> first_summary(rs, k) == reports_of(rs, k.0, k.1, k.2)[0].summary@,
    decreases rs.len(),
{
    reveal(Seq::filter);
    if rs.len() > 0 {
        lemma_kind_is_reports_of(rs.drop_last(), k);
    }
}

/// Each row counts exactly the reports that have its category, its name and
/// its severity, at least one, and shows the summary of the first of them:
/// reports that differ in any of the three are never counted in one row.
pub proof fn lemma_row_counts_its_reports(
    rows: Seq<ErrorSummaryRow>,
    reports: Seq<DiagnosticReport>,
    i: int,
)
    requires
        summarizes(rows, reports),
        0 <= i < rows.len(),
    ensures
        rows[i].count == reports_of(reports, rows[i].category@, rows[i].name@, rows[i].severity).len(),
        rows[i].count > 0,
        rows[i].message@ == reports_of(
            reports,
            rows[i].category@,
            rows[i].name@,
            rows[i].severity,
        )[0].summary@,
{
    assert(row_summarizes(rows[i], reports));
    lemma_kind_is_reports_of(reports, row_key(rows[i]));
}

impl ErrorSummaryList {
    /// The rows of a summary of a batch of reports, in the order in which
    /// they are shown.
    pub fn rows(reports: &Vec<DiagnosticReport>) -> (rows: Vec<ErrorSummaryRow>)
        ensures
            summarizes(rows@, reports@),
    {
        let grouped = group_reports(reports);
        let ghost g = grouped@;
        let sorted = sort_rows(grouped);
        assert forall|k: ReportKey| key_seen(reports@, k) implies exists|q: int| 0 <= q < sorted@.len() && row_key(#[trigger] sorted@[q]) == k by {
            let j = choose|j: int| 0 <= j < g.len() && row_key(#[trigger] g[j]) == k;
            assert(in_seq(g[j], sorted@));
            let q = choose|q: int| 0 <= q < sorted@.len() && sorted@[q] == g[j];
            assert(row_key(sorted@[q]) == k);
        }
        assert forall|q: int| 0 <= q < sorted@.len() implies row_summarizes(#[trigger] sorted@[q], reports@) by {
            assert(in_prefix(sorted@[q], g, g.len() as int));
            let j = choose|j: int| 0 <= j < g.len() && g[j] == sorted@[q];
            assert(row_summarizes(g[j], reports@));
        }
        sorted
    }
}

} // verus!
