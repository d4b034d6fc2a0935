//! Linting of error taxonomies: the rules that each entry must meet, and the
//! rules that the entries of all files must meet together.

use vstd::prelude::*;

use crate::text::{decimal, push_decimal, str_eq, str_is_blank, is_blank};

verus! {

/// One entry of an error taxonomy, as the linter reads it.
#[derive(Debug, Clone, PartialEq, Eq)]
pub struct TaxonomyEntry {
    /// The entry's identifier, which `related_errors` of other entries refer to.
    pub id: String,
    /// The name of the entry's error category.
    pub category: String,
    /// The error code within the category.
    pub code: u32,
    pub name: String,
    /// One of `Error`, `Warning`, `Info`, `Fatal`.
    pub severity: String,
    pub since_protocol: Option<u32>,
    pub deprecated_protocol: Option<u32>,
    pub summary: String,
    pub detailed_explanation: String,
    pub related_errors: Vec<String>,
    pub documentation_url: Option<String>,
}

/// What reading a taxonomy file gave: the error that kept it from being read,
/// the error that kept it from being parsed, or its entries.
#[derive(Debug, Clone, PartialEq, Eq)]
pub enum TaxonomyFileContent {
    Unreadable(String),
    Malformed(String),
    Entries(Vec<TaxonomyEntry>),
}

/// A taxonomy file: its name and what reading it gave.
#[derive(Debug, Clone, PartialEq, Eq)]
pub struct TaxonomyFile {
    pub file_name: String,
    pub content: TaxonomyFileContent,
}

/// A single issue found by the linter.
#[derive(Debug, Clone, PartialEq, Eq)]
pub struct LintIssue {
    /// Source file where the issue was found.
    pub file: String,
    /// The `id` of the taxonomy entry the issue relates to, if applicable.
    pub entry_id: Option<String>,
    /// Human-readable description of the issue.
    pub message: String,
}

/// An issue as text: file, entry id, message.
pub type IssueText = (Seq<char>, Option<Seq<char>>, Seq<char>);

/// The text of an issue.
pub open spec fn issue_view(i: LintIssue) -> IssueText {
    (
        i.file@,
        match i.entry_id {
            Some(id) => Some(id@),
            None => None,
        },
        i.message@,
    )
}

/// The texts of a list of issues.
pub open spec fn issue_views(s: Seq<LintIssue>) -> Seq<IssueText> {
    s.map_values(|i: LintIssue| issue_view(i))
}

/// The severities that an entry may have.
pub open spec fn valid_severity(s: Seq<char>) -> bool {
    s == "Error"@ || s == "Warning"@ || s == "Info"@ || s == "Fatal"@
}

/// Whether `url::Url::parse` accepts the text as an absolute URL.
pub uninterp spec fn url_is_valid(s: Seq<char>) -> bool;

/// Whether `url::Url::parse` accepts `s`.
///
/// Claim of `Url::parse`: whether it succeeds depends on the text alone.
#[verifier::external_body]
fn url_parses(s: &str) -> (res: bool)
    ensures
        res == url_is_valid(s@),
{
    url::Url::parse(s).is_ok()
}

/// One issue about entry `e` of `file`, if `cond` holds.
pub open spec fn issue_if(cond: bool, file: Seq<char>, e: TaxonomyEntry, msg: Seq<char>) -> Seq<IssueText> {
    if cond {
        seq![(file, Some(e.id@), msg)]
    } else {
        Seq::empty()
    }
}

/// The message about a protocol range that ends before it starts.
pub open spec fn protocol_order_message(dp: u32, sp: u32) -> Seq<char> {
    "deprecated_protocol ("@ + decimal(dp as nat) + ") must be >= since_protocol ("@ + decimal(
        sp as nat,
    ) + ")"@
}

/// The issue about a deprecation before the introduction, if there is one.
pub open spec fn protocol_order_issue(file: Seq<char>, e: TaxonomyEntry) -> Seq<IssueText> {
    match (e.deprecated_protocol, e.since_protocol) {
        (Some(dp), Some(sp)) => issue_if(dp < sp, file, e, protocol_order_message(dp, sp)),
        _ => Seq::empty(),
    }
}

/// The issue about a documentation URL that does not parse, if there is one.
pub open spec fn url_issue(file: Seq<char>, e: TaxonomyEntry) -> Seq<IssueText> {
    match e.documentation_url {
        Some(u) => issue_if(
            !url_is_valid(u@),
            file,
            e,
            "documentation_url '"@ + u@ + "' is not a valid URL"@,
        ),
        None => Seq::empty(),
    }
}

/// The issues with entry `e` of `file` on its own, in the order of the rules:
/// blank id, name, summary and explanation; unknown severity; protocol 0;
/// deprecation before introduction; documentation URL that does not parse.
pub open spec fn entry_issues(file: Seq<char>, e: TaxonomyEntry) -> Seq<IssueText> {
    issue_if(is_blank(e.id@), file, e, "id is empty"@)
        + issue_if(is_blank(e.name@), file, e, "name is empty"@)
        + issue_if(is_blank(e.summary@), file, e, "summary is empty"@)
        + issue_if(is_blank(e.detailed_explanation@), file, e, "detailed_explanation is empty"@)
        + issue_if(
        !valid_severity(e.severity@),
        file,
        e,
        "invalid severity '"@ + e.severity@ + "': must be one of Error, Warning, Info, Fatal"@,
    ) + issue_if(e.since_protocol == Some(0u32), file, e, "since_protocol must be > 0"@)
        + protocol_order_issue(file, e) + url_issue(file, e)
}

/// The issues with the first `n` entries of a file, one entry after another.
pub open spec fn entries_issues(file: Seq<char>, es: Seq<TaxonomyEntry>, n: int) -> Seq<IssueText>
    decreases n,
{
    if n <= 0 || n > es.len() {
        Seq::empty()
    } else {
        entries_issues(file, es, n - 1) + entry_issues(file, es[n - 1])
    }
}

/// The issues of one file on its own: why it could not be read or parsed, or
/// the issues with each of its entries.
pub open spec fn file_issues(f: TaxonomyFile) -> Seq<IssueText> {
    match f.content {
        TaxonomyFileContent::Unreadable(e) => seq![(f.file_name@, None, "Cannot read file: "@ + e@)],
        TaxonomyFileContent::Malformed(e) => seq![
            (f.file_name@, None, "TOML parse error: "@ + e@),
        ],
        TaxonomyFileContent::Entries(es) => entries_issues(f.file_name@, es@, es@.len() as int),
    }
}

/// The issues of the first `n` files, each on its own, one file after another.
pub open spec fn files_issues(fs: Seq<TaxonomyFile>, n: int) -> Seq<IssueText>
    decreases n,
{
    if n <= 0 || n > fs.len() {
        Seq::empty()
    } else {
        files_issues(fs, n - 1) + file_issues(fs[n - 1])
    }
}

/// The entries of a file that was parsed, each with the file's name.
pub open spec fn file_entries(f: TaxonomyFile) -> Seq<(Seq<char>, TaxonomyEntry)> {
    match f.content {
        TaxonomyFileContent::Entries(es) => es@.map_values(
            |e: TaxonomyEntry| (f.file_name@, e),
        ),
        _ => Seq::empty(),
    }
}

/// The entries of the first `n` files, each with its file's name, in order.
pub open spec fn all_entries(fs: Seq<TaxonomyFile>, n: int) -> Seq<(Seq<char>, TaxonomyEntry)>
    decreases n,
{
    if n <= 0 || n > fs.len() {
        Seq::empty()
    } else {
        all_entries(fs, n - 1) + file_entries(fs[n - 1])
    }
}

/// Two entries have the same category and code.
pub open spec fn same_key(a: TaxonomyEntry, b: TaxonomyEntry) -> bool {
    a.category@ == b.category@ && a.code == b.code
}

/// The first position before `k`, from `j` on, of an entry with the category
/// and code of entry `k`, or `k` where there is none.
pub open spec fn first_same_key_from(all: Seq<(Seq<char>, TaxonomyEntry)>, k: int, j: int) -> int
    decreases k - j,
{
    if j >= k {
        k
    } else if same_key(all[j].1, all[k].1) {
        j
    } else {
        first_same_key_from(all, k, j + 1)
    }
}

/// The issue about entry `k` repeating the category and code of an earlier
/// entry, naming the file of the first entry with them.
pub open spec fn duplicate_issue(all: Seq<(Seq<char>, TaxonomyEntry)>, k: int) -> Seq<IssueText> {
    let first = first_same_key_from(all, k, 0);
    let e = all[k].1;
    if first < k {
        seq![
            (
                all[k].0,
                Some(e.id@),
                "duplicate (category, code) pair ("@ + e.category@ + ", "@ + decimal(e.code as nat)
                    + ") already defined in "@ + all[first].0,
            ),
        ]
    } else {
        Seq::empty()
    }
}

/// The duplicate issues of the first `n` entries.
pub open spec fn duplicate_issues(all: Seq<(Seq<char>, TaxonomyEntry)>, n: int) -> Seq<IssueText>
    decreases n,
{
    if n <= 0 || n > all.len() {
        Seq::empty()
    } else {
        duplicate_issues(all, n - 1) + duplicate_issue(all, n - 1)
    }
}

/// Some entry has the id `id`.
pub open spec fn id_known(all: Seq<(Seq<char>, TaxonomyEntry)>, id: Seq<char>) -> bool {
    exists|m: int| 0 <= m < all.len() && (#[trigger] all[m]).1.id@ == id
}

/// The issues about the first `n` related errors of entry `k` that no entry has.
pub open spec fn related_issues_of(all: Seq<(Seq<char>, TaxonomyEntry)>, k: int, n: int) -> Seq<IssueText>
    decreases n,
{
    let e = all[k].1;
    if n <= 0 || n > e.related_errors@.len() {
        Seq::empty()
    } else {
        let rel = e.related_errors@[n - 1]@;
        related_issues_of(all, k, n - 1) + if id_known(all, rel) {
            Seq::empty()
        } else {
            seq![
                (
                    all[k].0,
                    Some(e.id@),
                    "related_errors references '"@ + rel
                        + "' which does not exist in any loaded file"@,
                ),
            ]
        }
    }
}

/// The issues about unknown related errors of the first `n` entries.
pub open spec fn related_issues(all: Seq<(Seq<char>, TaxonomyEntry)>, n: int) -> Seq<IssueText>
    decreases n,
{
    if n <= 0 || n > all.len() {
        Seq::empty()
    } else {
        related_issues(all, n - 1) + related_issues_of(
            all,
            n - 1,
            all[n - 1].1.related_errors@.len() as int,
        )
    }
}

/// Everything the linter reports for a set of files: the issues of each file
/// on its own, then the entries that repeat a category and code, then the
/// related errors that no entry has.
pub open spec fn lint_report(fs: Seq<TaxonomyFile>) -> Seq<IssueText> {
    let all = all_entries(fs, fs.len() as int);
    files_issues(fs, fs.len() as int) + duplicate_issues(all, all.len() as int) + related_issues(
        all,
        all.len() as int,
    )
}

/// The issues of fewer files come first among the issues of more files.
proof fn lemma_files_issues_prefix(fs: Seq<TaxonomyFile>, m: int, n: int)
    requires
        0 <= m <= n <= fs.len(),
    ensures
        files_issues(fs, m).len() <= files_issues(fs, n).len(),
        files_issues(fs, n).subrange(0, files_issues(fs, m).len() as int) == files_issues(fs, m),
    decreases n - m,
{
    if m < n {
        lemma_files_issues_prefix(fs, m, n - 1);
        let a = files_issues(fs, n - 1);
        assert(files_issues(fs, n) == a + file_issues(fs[n - 1]));
        assert((a + file_issues(fs[n - 1])).subrange(0, files_issues(fs, m).len() as int)
            =~= a.subrange(0, files_issues(fs, m).len() as int));
    } else {
        assert(files_issues(fs, n).subrange(0, files_issues(fs, n).len() as int) =~= files_issues(
            fs,
            n,
        ));
    }
}

/// `piece` stands in `s` from position `off` on.
pub open spec fn stands_at(s: Seq<IssueText>, piece: Seq<IssueText>, off: int) -> bool {
    0 <= off && off + piece.len() <= s.len() && s.subrange(off, off + piece.len()) == piece
}

/// Linting does not stop at a file with issues: the issues of every file,
/// each on its own, stand in the report as one piece, whatever the other
/// files hold.
pub proof fn lemma_every_file_checked(fs: Seq<TaxonomyFile>, i: int)
    requires
        0 <= i < fs.len(),
    ensures
        exists|off: int| #[trigger] stands_at(lint_report(fs), file_issues(fs[i]), off),
{
    lemma_files_issues_prefix(fs, i + 1, fs.len() as int);
    let before = files_issues(fs, i);
    let piece = file_issues(fs[i]);
    let upto = files_issues(fs, i + 1);
    assert(upto == before + piece);
    let report = lint_report(fs);
    let whole = files_issues(fs, fs.len() as int);
    let all = all_entries(fs, fs.len() as int);
    assert(report == whole + duplicate_issues(all, all.len() as int) + related_issues(
        all,
        all.len() as int,
    ));
    let off = before.len() as int;
    assert(report.subrange(off, off + piece.len()) =~= whole.subrange(0, upto.len() as int).subrange(
        off,
        off + piece.len(),
    ));
    assert(upto.subrange(off, off + piece.len()) =~= piece);
    assert(stands_at(report, piece, off));
}

/// The search for an earlier entry with the same category and code finds the
/// first one, or reports none.
proof fn lemma_first_same_key(all: Seq<(Seq<char>, TaxonomyEntry)>, k: int, j: int)
    requires
        0 <= j <= k < all.len(),
    ensures
        j <= first_same_key_from(all, k, j) <= k,
        first_same_key_from(all, k, j) < k ==> same_key(all[first_same_key_from(all, k, j)].1, all[k].1),
        forall|m: int| j <= m < first_same_key_from(all, k, j) ==> !same_key(#[trigger] all[m].1, all[k].1),
    decreases k - j,
{
    if j < k && !same_key(all[j].1, all[k].1) {
        lemma_first_same_key(all, k, j + 1);
    }
}

/// An entry is reported as a duplicate exactly when an earlier entry has its
/// category and code, and the report names the file of the first such entry:
/// the first entry with a category and code is never reported.
pub proof fn lemma_duplicate_reported_iff_repeated(all: Seq<(Seq<char>, TaxonomyEntry)>, k: int)
    requires
        0 <= k < all.len(),
    ensures
        duplicate_issue(all, k).len() > 0 <==> exists|j: int| 0 <= j < k && same_key(#[trigger] all[j].1, all[k].1),
        duplicate_issue(all, k).len() <= 1,
        duplicate_issue(all, k).len() > 0 ==> exists|j: int|
            0 <= j < k && same_key(all[j].1, all[k].1) && (forall|m: int| 0 <= m < j ==> !same_key(#[trigger] all[m].1, all[k].1))
                && duplicate_issue(all, k)[0].2 == "duplicate (category, code) pair ("@ + all[k].1.category@ + ", "@
                + decimal(all[k].1.code as nat) + ") already defined in "@ + all[j].0,
{
    lemma_first_same_key(all, k, 0);
    let f = first_same_key_from(all, k, 0);
    if f == k {
        assert forall|j: int| 0 <= j < k implies !same_key(#[trigger] all[j].1, all[k].1) by {}
    }
}

/// An entry is reported as a duplicate only when an earlier entry has both
/// its category and its code: entries that share a category but differ in
/// code, or share a code but differ in category, are no duplicates.
pub proof fn lemma_duplicate_needs_category_and_code(all: Seq<(Seq<char>, TaxonomyEntry)>, k: int)
    requires
        0 <= k < all.len(),
    ensures
        duplicate_issue(all, k).len() > 0 <==> exists|j: int|
            0 <= j < k && (#[trigger] all[j]).1.category@ == all[k].1.category@ && all[j].1.code
                == all[k].1.code,
{
    lemma_duplicate_reported_iff_repeated(all, k);
    if duplicate_issue(all, k).len() > 0 {
        let j = choose|j: int| 0 <= j < k && same_key(#[trigger] all[j].1, all[k].1);
        assert(all[j].1.category@ == all[k].1.category@ && all[j].1.code == all[k].1.code);
    } else {
        assert forall|j: int| 0 <= j < k implies !((#[trigger] all[j]).1.category@ == all[k].1.category@
            && all[j].1.code == all[k].1.code) by {
            assert(!same_key(all[j].1, all[k].1));
        }
    }
}

/// Every message of the issues `s` has a second character, and it is not `n`.
spec fn second_char_not_n(s: Seq<IssueText>) -> bool {
    forall|i: int| 0 <= i < s.len() ==> (#[trigger] s[i]).2.len() > 1 && s[i].2[1] != 'n'
}

/// Two lists of issues whose messages all avoid `n` as second character
/// still do one after the other.
proof fn lemma_second_char_join(a: Seq<IssueText>, b: Seq<IssueText>)
    requires
        second_char_not_n(a),
        second_char_not_n(b),
    ensures
        second_char_not_n(a + b),
{
    assert forall|i: int| 0 <= i < (a + b).len() implies (#[trigger] (a + b)[i]).2.len() > 1 && (a
        + b)[i].2[1] != 'n' by {
        if i < a.len() {
            assert((a + b)[i] == a[i]);
        } else {
            assert((a + b)[i] == b[i - a.len()]);
        }
    }
}

/// A possible issue whose message avoids `n` as second character.
proof fn lemma_issue_if_avoids(cond: bool, file: Seq<char>, e: TaxonomyEntry, msg: Seq<char>)
    requires
        msg.len() > 1,
        msg[1] != 'n',
    ensures
        second_char_not_n(issue_if(cond, file, e, msg)),
{
}

/// The issues of an entry other than the one about its severity: the rules
/// before it and the rules after it, none of whose messages has `n` as its
/// second character.
proof fn lemma_other_rules_avoid(file: Seq<char>, e: TaxonomyEntry)
    ensures
        second_char_not_n(
            issue_if(is_blank(e.id@), file, e, "id is empty"@) + issue_if(
                is_blank(e.name@),
                file,
                e,
                "name is empty"@,
            ) + issue_if(is_blank(e.summary@), file, e, "summary is empty"@) + issue_if(
                is_blank(e.detailed_explanation@),
                file,
                e,
                "detailed_explanation is empty"@,
            ),
        ),
        second_char_not_n(
            issue_if(e.since_protocol == Some(0u32), file, e, "since_protocol must be > 0"@)
                + protocol_order_issue(file, e) + url_issue(file, e),
        ),
{
    let p1 = issue_if(is_blank(e.id@), file, e, "id is empty"@);
    let p2 = issue_if(is_blank(e.name@), file, e, "name is empty"@);
    let p3 = issue_if(is_blank(e.summary@), file, e, "summary is empty"@);
    let p4 = issue_if(is_blank(e.detailed_explanation@), file, e, "detailed_explanation is empty"@);
    let p6 = issue_if(e.since_protocol == Some(0u32), file, e, "since_protocol must be > 0"@);
    let p7 = protocol_order_issue(file, e);
    let p8 = url_issue(file, e);
    assert(second_char_not_n(p1)) by {
        reveal_strlit("id is empty");
        lemma_issue_if_avoids(is_blank(e.id@), file, e, "id is empty"@);
    }
    assert(second_char_not_n(p2)) by {
        reveal_strlit("name is empty");
        lemma_issue_if_avoids(is_blank(e.name@), file, e, "name is empty"@);
    }
    assert(second_char_not_n(p3)) by {
        reveal_strlit("summary is empty");
        lemma_issue_if_avoids(is_blank(e.summary@), file, e, "summary is empty"@);
    }
    assert(second_char_not_n(p4)) by {
        reveal_strlit("detailed_explanation is empty");
        lemma_issue_if_avoids(is_blank(e.detailed_explanation@), file, e, "detailed_explanation is empty"@);
    }
    assert(second_char_not_n(p6)) by {
        reveal_strlit("since_protocol must be > 0");
        lemma_issue_if_avoids(e.since_protocol == Some(0u32), file, e, "since_protocol must be > 0"@);
    }
    assert(second_char_not_n(p7)) by {
        if let (Some(dp), Some(sp)) = (e.deprecated_protocol, e.since_protocol) {
            reveal_strlit("deprecated_protocol (");
            let m = protocol_order_message(dp, sp);
            assert(m[1] == 'e');
            lemma_issue_if_avoids(dp < sp, file, e, m);
        }
    }
    assert(second_char_not_n(p8)) by {
        if let Some(u) = e.documentation_url {
            reveal_strlit("documentation_url '");
            let m = "documentation_url '"@ + u@ + "' is not a valid URL"@;
            assert(m[1] == 'o');
            lemma_issue_if_avoids(!url_is_valid(u@), file, e, m);
        }
    }
    lemma_second_char_join(p1, p2);
    lemma_second_char_join(p1 + p2, p3);
    lemma_second_char_join(p1 + p2 + p3, p4);
    lemma_second_char_join(p6, p7);
    lemma_second_char_join(p6 + p7, p8);
}

/// An entry gets an issue about its severity exactly when the severity is
/// not one of `Error`, `Warning`, `Info` and `Fatal`.
#[verifier::rlimit(60)]
pub proof fn lemma_severity_reported_iff_unknown(file: Seq<char>, e: TaxonomyEntry)
    ensures
        (exists|i: int|
            0 <= i < entry_issues(file, e).len() && (#[trigger] entry_issues(file, e)[i]).2
                == "invalid severity '"@ + e.severity@
                + "': must be one of Error, Warning, Info, Fatal"@) <==> !(e.severity@ == "Error"@
            || e.severity@ == "Warning"@ || e.severity@ == "Info"@ || e.severity@ == "Fatal"@),
{
    let msg = "invalid severity '"@ + e.severity@ + "': must be one of Error, Warning, Info, Fatal"@;
    assert(msg[1] == 'n') by {
        reveal_strlit("invalid severity '");
    }
    let front = issue_if(is_blank(e.id@), file, e, "id is empty"@) + issue_if(
        is_blank(e.name@),
        file,
        e,
        "name is empty"@,
    ) + issue_if(is_blank(e.summary@), file, e, "summary is empty"@) + issue_if(
        is_blank(e.detailed_explanation@),
        file,
        e,
        "detailed_explanation is empty"@,
    );
    let p5 = issue_if(!valid_severity(e.severity@), file, e, msg);
    let back = issue_if(e.since_protocol == Some(0u32), file, e, "since_protocol must be > 0"@)
        + protocol_order_issue(file, e) + url_issue(file, e);
    lemma_other_rules_avoid(file, e);
    let x = entry_issues(file, e);
    assert(x =~= front + p5 + back);
    if valid_severity(e.severity@) {
        assert(x =~= front + back);
        lemma_second_char_join(front, back);
        assert forall|i: int| 0 <= i < x.len() implies (#[trigger] x[i]).2 != msg by {
            assert(x[i].2[1] != 'n');
        }
    } else {
        assert(x[front.len() as int] == p5[0]);
    }
}

/// A new string holding the characters of `s`.
fn owned(s: &str) -> (res: String)
    ensures
        res@ == s@,
{
    String::from_str(s)
}

/// Adds an issue about `file` (and entry `id`, if any) with message `message`.
fn push_issue(out: &mut Vec<LintIssue>, file: &String, id: Option<String>, message: String)
    ensures
        issue_views(final(out)@) == issue_views(old(out)@).push(
            issue_view(LintIssue { file: *file, entry_id: id, message }),
        ),
{
    let issue = LintIssue { file: file.clone(), entry_id: id, message };
    out.push(issue);
    assert(issue_views(out@) =~= issue_views(old(out)@).push(issue_view(issue)));
}

/// Adds an issue about entry `e` of `file` with message `message`.
fn push_entry_issue(out: &mut Vec<LintIssue>, file: &String, e: &TaxonomyEntry, message: String)
    ensures
        issue_views(final(out)@) == issue_views(old(out)@) + issue_if(true, file@, *e, message@),
{
    push_issue(out, file, Some(e.id.clone()), message);
    assert(issue_views(out@) =~= issue_views(old(out)@) + issue_if(true, file@, *e, message@));
}

/// Adds the issue `message` about entry `e` of `file` when `text` is blank.
fn check_not_blank(out: &mut Vec<LintIssue>, file: &String, e: &TaxonomyEntry, text: &String, message: &str)
    ensures
        issue_views(final(out)@) == issue_views(old(out)@) + issue_if(is_blank(text@), file@, *e, message@),
{
    if str_is_blank(text.as_str()) {
        push_entry_issue(out, file, e, owned(message));
    } else {
        assert(issue_views(out@) =~= issue_views(out@) + issue_if(false, file@, *e, message@));
    }
}

/// Adds the issue about an unknown severity of entry `e`, if it has one.
fn check_severity(out: &mut Vec<LintIssue>, file: &String, e: &TaxonomyEntry)
    ensures
        issue_views(final(out)@) == issue_views(old(out)@) + issue_if(
            !valid_severity(e.severity@),
            file@,
            *e,
            "invalid severity '"@ + e.severity@ + "': must be one of Error, Warning, Info, Fatal"@,
        ),
{
    let sev = e.severity.as_str();
    let known = str_eq(sev, "Error") || str_eq(sev, "Warning") || str_eq(sev, "Info") || str_eq(
        sev,
        "Fatal",
    );
    let ghost msg = "invalid severity '"@ + e.severity@ + "': must be one of Error, Warning, Info, Fatal"@;
    if !known {
        let mut m = owned("invalid severity '");
        m.append(sev);
        m.append("': must be one of Error, Warning, Info, Fatal");
        push_entry_issue(out, file, e, m);
    } else {
        assert(issue_views(out@) =~= issue_views(out@) + issue_if(false, file@, *e, msg));
    }
}

/// Adds the issue about protocol 0 as the protocol that entry `e` appeared in.
fn check_since_protocol(out: &mut Vec<LintIssue>, file: &String, e: &TaxonomyEntry)
    ensures
        issue_views(final(out)@) == issue_views(old(out)@) + issue_if(
            e.since_protocol == Some(0u32),
            file@,
            *e,
            "since_protocol must be > 0"@,
        ),
{
    if e.since_protocol == Some(0u32) {
        push_entry_issue(out, file, e, owned("since_protocol must be > 0"));
    } else {
        assert(issue_views(out@) =~= issue_views(out@) + issue_if(
            false,
            file@,
            *e,
            "since_protocol must be > 0"@,
        ));
    }
}

/// Adds the issue about entry `e` being deprecated before it appeared.
fn check_protocol_order(out: &mut Vec<LintIssue>, file: &String, e: &TaxonomyEntry)
    ensures
        issue_views(final(out)@) == issue_views(old(out)@) + protocol_order_issue(file@, *e),
{
    match (e.deprecated_protocol, e.since_protocol) {
        (Some(dp), Some(sp)) => {
            if dp < sp {
                let mut m = owned("deprecated_protocol (");
                push_decimal(&mut m, dp);
                m.append(") must be >= since_protocol (");
                push_decimal(&mut m, sp);
                m.append(")");
                assert(m@ =~= protocol_order_message(dp, sp));
                push_entry_issue(out, file, e, m);
            } else {
                assert(issue_views(out@) =~= issue_views(out@) + protocol_order_issue(file@, *e));
            }
        },
        _ => {
            assert(issue_views(out@) =~= issue_views(out@) + protocol_order_issue(file@, *e));
        },
    }
}

/// Adds the issue about a documentation URL of entry `e` that does not parse.
fn check_documentation_url(out: &mut Vec<LintIssue>, file: &String, e: &TaxonomyEntry)
    ensures
        issue_views(final(out)@) == issue_views(old(out)@) + url_issue(file@, *e),
{
    match &e.documentation_url {
        Some(doc_url) => {
            if !url_parses(doc_url.as_str()) {
                let mut m = owned("documentation_url '");
                m.append(doc_url.as_str());
                m.append("' is not a valid URL");
                push_entry_issue(out, file, e, m);
            } else {
                assert(issue_views(out@) =~= issue_views(out@) + url_issue(file@, *e));
            }
        },
        None => {
            assert(issue_views(out@) =~= issue_views(out@) + url_issue(file@, *e));
        },
    }
}

/// Checks entry `e` of `file` on its own and adds the issues found, in the
/// order of the rules.
pub fn check_entry(out: &mut Vec<LintIssue>, file: &String, e: &TaxonomyEntry)
    ensures
        issue_views(final(out)@) == issue_views(old(out)@) + entry_issues(file@, *e),
{
    let ghost start = issue_views(out@);
    check_not_blank(out, file, e, &e.id, "id is empty");
    check_not_blank(out, file, e, &e.name, "name is empty");
    check_not_blank(out, file, e, &e.summary, "summary is empty");
    check_not_blank(out, file, e, &e.detailed_explanation, "detailed_explanation is empty");
    check_severity(out, file, e);
    check_since_protocol(out, file, e);
    check_protocol_order(out, file, e);
    check_documentation_url(out, file, e);
    proof {
        let f = file@;
        let p1 = issue_if(is_blank(e.id@), f, *e, "id is empty"@);
        let p2 = issue_if(is_blank(e.name@), f, *e, "name is empty"@);
        let p3 = issue_if(is_blank(e.summary@), f, *e, "summary is empty"@);
        let p4 = issue_if(is_blank(e.detailed_explanation@), f, *e, "detailed_explanation is empty"@);
        let p5 = issue_if(
            !valid_severity(e.severity@),
            f,
            *e,
            "invalid severity '"@ + e.severity@ + "': must be one of Error, Warning, Info, Fatal"@,
        );
        let p6 = issue_if(e.since_protocol == Some(0u32), f, *e, "since_protocol must be > 0"@);
        let p7 = protocol_order_issue(f, *e);
        let p8 = url_issue(f, *e);
        vstd::seq_lib::lemma_concat_associative(start, p1, p2);
        let q2 = p1 + p2;
        vstd::seq_lib::lemma_concat_associative(start, q2, p3);
        let q3 = q2 + p3;
        vstd::seq_lib::lemma_concat_associative(start, q3, p4);
        let q4 = q3 + p4;
        vstd::seq_lib::lemma_concat_associative(start, q4, p5);
        let q5 = q4 + p5;
        vstd::seq_lib::lemma_concat_associative(start, q5, p6);
        let q6 = q5 + p6;
        vstd::seq_lib::lemma_concat_associative(start, q6, p7);
        let q7 = q6 + p7;
        vstd::seq_lib::lemma_concat_associative(start, q7, p8);
    }
}

/// Adds the issues of one file on its own: why it could not be read or
/// parsed, or the issues with each of its entries in order.
pub fn check_file(out: &mut Vec<LintIssue>, f: &TaxonomyFile)
    ensures
        issue_views(final(out)@) == issue_views(old(out)@) + file_issues(*f),
{
    match &f.content {
        TaxonomyFileContent::Unreadable(err) => {
            let mut m = owned("Cannot read file: ");
            m.append(err.as_str());
            push_issue(out, &f.file_name, None, m);
            assert(issue_views(out@) =~= issue_views(old(out)@) + file_issues(*f));
        },
        TaxonomyFileContent::Malformed(err) => {
            let mut m = owned("TOML parse error: ");
            m.append(err.as_str());
            push_issue(out, &f.file_name, None, m);
            assert(issue_views(out@) =~= issue_views(old(out)@) + file_issues(*f));
        },
        TaxonomyFileContent::Entries(es) => {
            let ghost start = issue_views(out@);
            let mut i: usize = 0;
            while i < es.len()
                invariant
                    i <= es@.len(),
                    issue_views(out@) == start + entries_issues(f.file_name@, es@, i as int),
                decreases es@.len() - i,
            {
                check_entry(out, &f.file_name, &es[i]);
                i = i + 1;
                assert(entries_issues(f.file_name@, es@, i as int) == entries_issues(
                    f.file_name@,
                    es@,
                    i - 1,
                ) + entry_issues(f.file_name@, es@[i - 1]));
                proof {
                    vstd::seq_lib::lemma_concat_associative(
                        start,
                        entries_issues(f.file_name@, es@, i - 1),
                        entry_issues(f.file_name@, es@[i - 1]),
                    );
                }
            }
        },
    }
}

/// The entries of a list of (file name, entry) references, as text and entry.
pub open spec fn flat_view<'a>(s: Seq<(&'a String, &'a TaxonomyEntry)>) -> Seq<(Seq<char>, TaxonomyEntry)> {
    s.map_values(|p: (&'a String, &'a TaxonomyEntry)| (p.0@, *p.1))
}

/// The entries of all files that were parsed, each with its file's name.
fn collect_entries<'a>(files: &'a Vec<TaxonomyFile>) -> (res: Vec<(&'a String, &'a TaxonomyEntry)>)
    ensures
        flat_view(res@) == all_entries(files@, files@.len() as int),
{
    let mut res: Vec<(&'a String, &'a TaxonomyEntry)> = Vec::new();
    let mut i: usize = 0;
    while i < files.len()
        invariant
            i <= files@.len(),
            flat_view(res@) == all_entries(files@, i as int),
        decreases files@.len() - i,
    {
        let f = &files[i];
        let ghost before = flat_view(res@);
        match &f.content {
            TaxonomyFileContent::Entries(es) => {
                let mut j: usize = 0;
                while j < es.len()
                    invariant
                        j <= es@.len(),
                        flat_view(res@) == before + file_entries(*f).take(j as int),
                        file_entries(*f).len() == es@.len(),
                        f.content == TaxonomyFileContent::Entries(*es),
                    decreases es@.len() - j,
                {
                    let ghost prev = res@;
                    res.push((&f.file_name, &es[j]));
                    assert(flat_view(res@) =~= flat_view(prev).push((f.file_name@, es@[j as int])));
                    assert(file_entries(*f).take(j + 1) =~= file_entries(*f).take(j as int).push(
                        (f.file_name@, es@[j as int]),
                    ));
                    j = j + 1;
                }
                assert(file_entries(*f).take(j as int) =~= file_entries(*f));
            },
            _ => {
                assert(file_entries(*f) =~= Seq::empty());
                assert(flat_view(res@) =~= before + file_entries(*f));
            },
        }
        i = i + 1;
        assert(all_entries(files@, i as int) == all_entries(files@, i - 1) + file_entries(
            files@[i - 1],
        ));
    }
    res
}

/// Whether two entries have the same category and code.
fn same_key_exec(a: &TaxonomyEntry, b: &TaxonomyEntry) -> (res: bool)
    ensures
        res == same_key(*a, *b),
{
    a.code == b.code && str_eq(a.category.as_str(), b.category.as_str())
}

/// The position of the first entry with the category and code of entry `k`.
fn first_same_key(flat: &Vec<(&String, &TaxonomyEntry)>, k: usize) -> (res: usize)
    requires
        k < flat@.len(),
    ensures
        res == first_same_key_from(flat_view(flat@), k as int, 0),
        res <= k,
{
    let ghost v = flat_view(flat@);
    let mut j: usize = 0;
    while j < k
        invariant
            j <= k,
            k < flat@.len(),
            v == flat_view(flat@),
            first_same_key_from(v, k as int, 0) == first_same_key_from(v, k as int, j as int),
        decreases k - j,
    {
        if same_key_exec(flat[j].1, flat[k].1) {
            return j;
        }
        j = j + 1;
    }
    k
}

/// Adds an issue for each entry that repeats the category and code of an
/// earlier entry, naming the file of the first entry with them.
fn check_duplicates(out: &mut Vec<LintIssue>, flat: &Vec<(&String, &TaxonomyEntry)>)
    ensures
        issue_views(final(out)@) == issue_views(old(out)@) + duplicate_issues(
            flat_view(flat@),
            flat@.len() as int,
        ),
{
    let ghost v = flat_view(flat@);
    let ghost start = issue_views(out@);
    let mut k: usize = 0;
    while k < flat.len()
        invariant
            k <= flat@.len(),
            v == flat_view(flat@),
            issue_views(out@) == start + duplicate_issues(v, k as int),
        decreases flat@.len() - k,
    {
        let first = first_same_key(flat, k);
        let ghost before = issue_views(out@);
        let (file, e) = flat[k];
        if first < k {
            let mut m = owned("duplicate (category, code) pair (");
            m.append(e.category.as_str());
            m.append(", ");
            push_decimal(&mut m, e.code);
            m.append(") already defined in ");
            m.append(flat[first].0.as_str());
            push_issue(out, file, Some(e.id.clone()), m);
        }
        assert(issue_views(out@) =~= before + duplicate_issue(v, k as int));
        proof {
            vstd::seq_lib::lemma_concat_associative(
                start,
                duplicate_issues(v, k as int),
                duplicate_issue(v, k as int),
            );
        }
        k = k + 1;
    }
}

/// Whether some entry has the id `id`.
fn id_known_exec(flat: &Vec<(&String, &TaxonomyEntry)>, id: &String) -> (res: bool)
    ensures
        res == id_known(flat_view(flat@), id@),
{
    let ghost v = flat_view(flat@);
    let mut m: usize = 0;
    while m < flat.len()
        invariant
            m <= flat@.len(),
            v == flat_view(flat@),
            forall|x: int| 0 <= x < m ==> (#[trigger] v[x]).1.id@ != id@,
        decreases flat@.len() - m,
    {
        if str_eq(flat[m].1.id.as_str(), id.as_str()) {
            assert(v[m as int].1.id@ == id@);
            return true;
        }
        m = m + 1;
    }
    false
}

/// Adds an issue for each related error of entry `k` that no entry has.
fn check_related_of(out: &mut Vec<LintIssue>, flat: &Vec<(&String, &TaxonomyEntry)>, k: usize)
    requires
        k < flat@.len(),
    ensures
        issue_views(final(out)@) == issue_views(old(out)@) + related_issues_of(
            flat_view(flat@),
            k as int,
            flat@[k as int].1.related_errors@.len() as int,
        ),
{
    let ghost v = flat_view(flat@);
    let ghost start = issue_views(out@);
    let (file, e) = flat[k];
    let mut n: usize = 0;
    while n < e.related_errors.len()
        invariant
            k < flat@.len(),
            v == flat_view(flat@),
            (file, e) == flat@[k as int],
            n <= e.related_errors@.len(),
            issue_views(out@) == start + related_issues_of(v, k as int, n as int),
        decreases e.related_errors@.len() - n,
    {
        let rel = &e.related_errors[n];
        let ghost before = issue_views(out@);
        if !id_known_exec(flat, rel) {
            let mut m = owned("related_errors references '");
            m.append(rel.as_str());
            m.append("' which does not exist in any loaded file");
            push_issue(out, file, Some(e.id.clone()), m);
        }
        n = n + 1;
        let ghost piece = related_issues_of(v, k as int, n as int).subrange(
            related_issues_of(v, k as int, n - 1).len() as int,
            related_issues_of(v, k as int, n as int).len() as int,
        );
        assert(related_issues_of(v, k as int, n as int) =~= related_issues_of(v, k as int, n - 1)
            + piece);
        assert(issue_views(out@) =~= before + piece);
        proof {
            vstd::seq_lib::lemma_concat_associative(start, related_issues_of(v, k as int, n - 1), piece);
        }
    }
}

/// Adds an issue for each related error, of each entry, that no entry has.
fn check_related(out: &mut Vec<LintIssue>, flat: &Vec<(&String, &TaxonomyEntry)>)
    ensures
        issue_views(final(out)@) == issue_views(old(out)@) + related_issues(
            flat_view(flat@),
            flat@.len() as int,
        ),
{
    let ghost v = flat_view(flat@);
    let ghost start = issue_views(out@);
    let mut k: usize = 0;
    while k < flat.len()
        invariant
            k <= flat@.len(),
            v == flat_view(flat@),
            issue_views(out@) == start + related_issues(v, k as int),
        decreases flat@.len() - k,
    {
        check_related_of(out, flat, k);
        proof {
            vstd::seq_lib::lemma_concat_associative(
                start,
                related_issues(v, k as int),
                related_issues_of(v, k as int, v[k as int].1.related_errors@.len() as int),
            );
        }
        k = k + 1;
    }
}

/// Lints a set of taxonomy files: the issues of each file on its own, in the
/// order of the files, then the entries that repeat a category and code, then
/// the related errors that no entry of any file has. Every file is checked,
/// whatever the issues in the others.
pub fn lint_files(files: &Vec<TaxonomyFile>) -> (issues: Vec<LintIssue>)
    ensures
        issue_views(issues@) == lint_report(files@),
{
    let mut issues: Vec<LintIssue> = Vec::new();
    let mut i: usize = 0;
    assert(issue_views(issues@) =~= files_issues(files@, 0));
    while i < files.len()
        invariant
            i <= files@.len(),
            issue_views(issues@) == files_issues(files@, i as int),
        decreases files@.len() - i,
    {
        check_file(&mut issues, &files[i]);
        i = i + 1;
    }
    let flat = collect_entries(files);
    check_duplicates(&mut issues, &flat);
    check_related(&mut issues, &flat);
    issues
}

} // verus!
