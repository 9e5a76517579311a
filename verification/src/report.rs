//! Issues, per-file reports, and the aggregate report with its
//! pass/fail policy.

use vstd::prelude::*;

verus! {

/// How serious one finding is. Schema violations and unreadable files are
/// errors; semantic findings are warnings.
#[derive(Clone, Copy, PartialEq, Eq, Structural, Debug)]
pub enum Severity {
    Error,
    Warning,
}

/// One finding on one manifest file: a severity, a human-readable message,
/// and optional JSON pointers into the instance and into the schema
/// (empty string when absent).
pub struct Issue {
    pub severity: Severity,
    pub message: String,
    pub instance_path: String,
    pub schema_path: String,
}

/// The mathematical value of one issue.
pub struct IssueView {
    pub severity: Severity,
    pub message: Seq<char>,
    pub instance_path: Seq<char>,
    pub schema_path: Seq<char>,
}

impl View for Issue {
    type V = IssueView;

    open spec fn view(&self) -> IssueView {
        IssueView {
            severity: self.severity,
            message: self.message@,
            instance_path: self.instance_path@,
            schema_path: self.schema_path@,
        }
    }
}

impl DeepView for Issue {
    type V = IssueView;

    open spec fn deep_view(&self) -> IssueView {
        self.view()
    }
}

/// The outcome for one manifest file: its path, whether it passed under the
/// active strictness policy, and its ordered findings.
pub struct FileReport {
    pub file: String,
    pub ok: bool,
    pub issues: Vec<Issue>,
}

/// The mathematical value of one file report.
pub struct FileReportView {
    pub file: Seq<char>,
    pub ok: bool,
    pub issues: Seq<IssueView>,
}

impl View for FileReport {
    type V = FileReportView;

    open spec fn view(&self) -> FileReportView {
        FileReportView { file: self.file@, ok: self.ok, issues: self.issues.deep_view() }
    }
}

impl DeepView for FileReport {
    type V = FileReportView;

    open spec fn deep_view(&self) -> FileReportView {
        self.view()
    }
}

/// The outcome of a whole run: one report per discovered file, in order,
/// and the conjunction of their outcomes.
pub struct AggregateReport {
    pub reports: Vec<FileReport>,
    pub ok: bool,
}

/// Some issue in the list has the given severity.
pub open spec fn has_severity(issues: Seq<IssueView>, sev: Severity) -> bool {
    exists|i: int| 0 <= i < issues.len() && issues[i].severity == sev
}

/// The pass/fail policy for one file: strict mode fails on any finding,
/// lenient mode fails only on errors.
pub open spec fn passes(issues: Seq<IssueView>, strict: bool) -> bool {
    if strict {
        !has_severity(issues, Severity::Error) && !has_severity(issues, Severity::Warning)
    } else {
        !has_severity(issues, Severity::Error)
    }
}

/// Every file report in the sequence passed.
pub open spec fn all_ok(reports: Seq<FileReportView>) -> bool {
    forall|i: int| 0 <= i < reports.len() ==> #[trigger] reports[i].ok
}

proof fn lemma_has_severity_push(s: Seq<IssueView>, x: IssueView, sev: Severity)
    ensures
        has_severity(s.push(x), sev) == (has_severity(s, sev) || x.severity == sev),
{
    if has_severity(s, sev) {
        let i = choose|i: int| 0 <= i < s.len() && s[i].severity == sev;
        assert(s.push(x)[i].severity == sev);
    }
    if x.severity == sev {
        assert(s.push(x)[s.len() as int].severity == sev);
    }
    if has_severity(s.push(x), sev) {
        let i = choose|i: int| 0 <= i < s.push(x).len() && s.push(x)[i].severity == sev;
        if i < s.len() {
            assert(s[i].severity == sev);
        } else {
            assert(x.severity == sev);
        }
    }
}

proof fn lemma_all_ok_push(s: Seq<FileReportView>, x: FileReportView)
    ensures
        all_ok(s.push(x)) == (all_ok(s) && x.ok),
{
    if all_ok(s) && x.ok {
        assert forall|i: int| 0 <= i < s.push(x).len() implies #[trigger] s.push(x)[i].ok by {
            if i < s.len() {
                assert(s[i].ok);
            }
        }
    }
    if all_ok(s.push(x)) {
        assert forall|i: int| 0 <= i < s.len() implies #[trigger] s[i].ok by {
            assert(s.push(x)[i].ok);
        }
        assert(s.push(x)[s.len() as int].ok);
    }
}

/// Decide pass/fail for one file's issue list under the active policy.
pub fn file_passes(issues: &Vec<Issue>, strict: bool) -> (r: bool)
    ensures
        r == passes(issues.deep_view(), strict),
{
    let ghost dv = issues.deep_view();
    let mut has_error = false;
    let mut has_warning = false;
    let mut i: usize = 0;
    while i < issues.len()
        invariant
            dv == issues.deep_view(),
            dv.len() == issues@.len(),
            0 <= i <= issues@.len(),
            has_error == has_severity(dv.subrange(0, i as int), Severity::Error),
            has_warning == has_severity(dv.subrange(0, i as int), Severity::Warning),
        decreases issues@.len() - i,
    {
        let ghost pre = dv.subrange(0, i as int);
        match issues[i].severity {
            Severity::Error => {
                has_error = true;
            },
            Severity::Warning => {
                has_warning = true;
            },
        }
        proof {
            assert(dv.subrange(0, i + 1 as int) =~= pre.push(dv[i as int]));
            lemma_has_severity_push(pre, dv[i as int], Severity::Error);
            lemma_has_severity_push(pre, dv[i as int], Severity::Warning);
            assert(dv[i as int].severity == issues@[i as int].severity);
        }
        i = i + 1;
    }
    proof {
        assert(dv.subrange(0, dv.len() as int) =~= dv);
    }
    if strict {
        !has_error && !has_warning
    } else {
        !has_error
    }
}

/// Build the aggregate report: keeps the file reports in the order given
/// and computes the overall outcome as the conjunction of the per-file
/// outcomes.  A run over zero files is a passing run.
pub fn aggregate(reports: Vec<FileReport>) -> (r: AggregateReport)
    ensures
        r.reports@ == reports@,
        r.ok == all_ok(reports.deep_view()),
{
    let ghost dv = reports.deep_view();
    let mut ok = true;
    let mut i: usize = 0;
    while i < reports.len()
        invariant
            dv == reports.deep_view(),
            dv.len() == reports@.len(),
            0 <= i <= reports@.len(),
            ok == all_ok(dv.subrange(0, i as int)),
        decreases reports@.len() - i,
    {
        let ghost pre = dv.subrange(0, i as int);
        if !reports[i].ok {
            ok = false;
        }
        proof {
            assert(dv.subrange(0, i + 1 as int) =~= pre.push(dv[i as int]));
            lemma_all_ok_push(pre, dv[i as int]);
            assert(dv[i as int].ok == reports@[i as int].ok);
        }
        i = i + 1;
    }
    proof {
        assert(dv.subrange(0, dv.len() as int) =~= dv);
    }
    AggregateReport { reports, ok }
}

} // verus!
