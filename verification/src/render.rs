//! Rendering the aggregate report: human-readable text, one JSON document,
//! or newline-delimited JSON records, and the exit decision.

use vstd::prelude::*;
use crate::report::Severity;
use crate::report::IssueView;
use crate::report::FileReportView;
use crate::report::AggregateReport;

verus! {

/// One of the sixteen lower-case hexadecimal digits.
pub open spec fn hexdig(n: int) -> char {
    if n == 0 {
        '0'
    } else if n == 1 {
        '1'
    } else if n == 2 {
        '2'
    } else if n == 3 {
        '3'
    } else if n == 4 {
        '4'
    } else if n == 5 {
        '5'
    } else if n == 6 {
        '6'
    } else if n == 7 {
        '7'
    } else if n == 8 {
        '8'
    } else if n == 9 {
        '9'
    } else if n == 10 {
        'a'
    } else if n == 11 {
        'b'
    } else if n == 12 {
        'c'
    } else if n == 13 {
        'd'
    } else if n == 14 {
        'e'
    } else {
        'f'
    }
}

/// How one character appears inside a JSON string literal: the named
/// escapes, `\u00..` for the remaining control characters, and itself
/// otherwise.
pub open spec fn escape_char(c: char) -> Seq<char> {
    if c == '"' {
        seq!['\\', '"']
    } else if c == '\\' {
        seq!['\\', '\\']
    } else if c == '\u{8}' {
        seq!['\\', 'b']
    } else if c == '\u{c}' {
        seq!['\\', 'f']
    } else if c == '\n' {
        seq!['\\', 'n']
    } else if c == '\r' {
        seq!['\\', 'r']
    } else if c == '\t' {
        seq!['\\', 't']
    } else if (c as u32) < 0x20 {
        seq!['\\', 'u', '0', '0', hexdig((c as u32) as int / 16), hexdig((c as u32) as int % 16)]
    } else {
        seq![c]
    }
}

/// The body of a JSON string literal holding this text.
pub open spec fn escape_seq(s: Seq<char>) -> Seq<char>
    decreases s.len(),
{
    if s.len() == 0 {
        Seq::<char>::empty()
    } else {
        escape_seq(s.drop_last()) + escape_char(s.last())
    }
}

/// Append the JSON-escaped text to the output.
pub(crate) fn append_escaped(out: &mut String, s: &str)
    ensures
        final(out)@ == old(out)@ + escape_seq(s@),
{
    let n = s.unicode_len();
    let mut i: usize = 0;
    proof {
        assert(escape_seq(s@.subrange(0, 0)) =~= Seq::<char>::empty());
    }
    while i < n
        invariant
            n == s@.len(),
            0 <= i <= n,
            out@ == old(out)@ + escape_seq(s@.subrange(0, i as int)),
        decreases n - i,
    {
        let ghost pre = out@;
        proof {
            reveal_strlit("\\\"");
            reveal_strlit("\\\\");
            reveal_strlit("\\b");
            reveal_strlit("\\f");
            reveal_strlit("\\n");
            reveal_strlit("\\r");
            reveal_strlit("\\t");
            reveal_strlit("\\u00");
            reveal_strlit("0123456789abcdef");
        }
        let c = s.get_char(i);
        let u = c as u32;
        if c == '"' {
            out.append("\\\"");
        } else if c == '\\' {
            out.append("\\\\");
        } else if u == 0x8 {
            proof {
                crate::text::lemma_char_cast_injective(c, '\u{8}');
            }
            out.append("\\b");
        } else if u == 0xC {
            proof {
                crate::text::lemma_char_cast_injective(c, '\u{c}');
            }
            out.append("\\f");
        } else if u == 0xA {
            proof {
                crate::text::lemma_char_cast_injective(c, '\n');
            }
            out.append("\\n");
        } else if u == 0xD {
            proof {
                crate::text::lemma_char_cast_injective(c, '\r');
            }
            out.append("\\r");
        } else if u == 0x9 {
            proof {
                crate::text::lemma_char_cast_injective(c, '\t');
            }
            out.append("\\t");
        } else if u < 0x20 {
            out.append("\\u00");
            let hx = "0123456789abcdef";
            let hi = (u / 16) as usize;
            let lo = (u % 16) as usize;
            out.append(hx.substring_char(hi, hi + 1));
            out.append(hx.substring_char(lo, lo + 1));
            proof {
                assert(hx@.subrange(hi as int, hi + 1 as int) =~= seq![hexdig(u as int / 16)]);
                assert(hx@.subrange(lo as int, lo + 1 as int) =~= seq![hexdig(u as int % 16)]);
            }
        } else {
            out.append(s.substring_char(i, i + 1));
            proof {
                assert(s@.subrange(i as int, i + 1 as int) =~= seq![s@[i as int]]);
            }
        }
        proof {
            assert(s@.subrange(0, i + 1 as int).drop_last() =~= s@.subrange(0, i as int));
            assert(s@.subrange(0, i + 1 as int).last() == s@[i as int]);
            assert(out@ =~= pre + escape_char(s@[i as int]));
            assert(out@ =~= old(out)@ + escape_seq(s@.subrange(0, i + 1 as int)));
        }
        i = i + 1;
    }
    proof {
        assert(s@.subrange(0, n as int) =~= s@);
    }
}

/// The machine-readable name of a severity.
pub open spec fn severity_label(sev: Severity) -> Seq<char> {
    if sev == Severity::Error {
        "error"@
    } else {
        "warning"@
    }
}

/// The JSON spelling of a boolean.
pub open spec fn bool_label(b: bool) -> Seq<char> {
    if b {
        "true"@
    } else {
        "false"@
    }
}

/// One issue as a compact JSON object, fields in their fixed order.
pub open spec fn issue_json(file: Seq<char>, i: IssueView) -> Seq<char> {
    "{\"file\":\""@ + escape_seq(file) + "\",\"level\":\""@ + severity_label(i.severity)
        + "\",\"message\":\""@ + escape_seq(i.message) + "\",\"instance_path\":\""@ + escape_seq(
        i.instance_path,
    ) + "\",\"schema_path\":\""@ + escape_seq(i.schema_path) + "\"}"@
}

/// A comma-separated run of compact issue objects.
pub open spec fn issues_json(file: Seq<char>, issues: Seq<IssueView>) -> Seq<char>
    decreases issues.len(),
{
    if issues.len() == 0 {
        Seq::<char>::empty()
    } else if issues.len() == 1 {
        issue_json(file, issues[0])
    } else {
        issues_json(file, issues.drop_last()) + ","@ + issue_json(file, issues.last())
    }
}

/// One file report as a compact JSON object.
pub open spec fn report_json(r: FileReportView) -> Seq<char> {
    "{\"file\":\""@ + escape_seq(r.file) + "\",\"ok\":"@ + bool_label(r.ok) + ",\"issues\":["@
        + issues_json(r.file, r.issues) + "]}"@
}

/// The newline-delimited rendering: one compact record per file, one per
/// line.
pub open spec fn ndjson_doc(reports: Seq<FileReportView>) -> Seq<char>
    decreases reports.len(),
{
    if reports.len() == 0 {
        Seq::<char>::empty()
    } else {
        ndjson_doc(reports.drop_last()) + report_json(reports.last()) + "\n"@
    }
}

/// Append one severity label.
fn append_severity(out: &mut String, sev: Severity)
    ensures
        final(out)@ == old(out)@ + severity_label(sev),
{
    match sev {
        Severity::Error => out.append("error"),
        Severity::Warning => out.append("warning"),
    }
}

/// Append one boolean.
fn append_bool(out: &mut String, b: bool)
    ensures
        final(out)@ == old(out)@ + bool_label(b),
{
    if b {
        out.append("true");
    } else {
        out.append("false");
    }
}

/// Append one issue as a compact JSON object.
fn append_issue_json(out: &mut String, file: &str, issue: &crate::report::Issue)
    ensures
        final(out)@ == old(out)@ + issue_json(file@, issue@),
{
    out.append("{\"file\":\"");
    append_escaped(out, file);
    out.append("\",\"level\":\"");
    append_severity(out, issue.severity);
    out.append("\",\"message\":\"");
    append_escaped(out, issue.message.as_str());
    out.append("\",\"instance_path\":\"");
    append_escaped(out, issue.instance_path.as_str());
    out.append("\",\"schema_path\":\"");
    append_escaped(out, issue.schema_path.as_str());
    out.append("\"}");
}

/// Append one file report as a compact JSON object.
fn append_report_json(out: &mut String, report: &crate::report::FileReport)
    ensures
        final(out)@ == old(out)@ + report_json(report@),
{
    out.append("{\"file\":\"");
    append_escaped(out, report.file.as_str());
    out.append("\",\"ok\":");
    append_bool(out, report.ok);
    out.append(",\"issues\":[");
    let ghost mid = out@;
    let ghost issues = report.issues.deep_view();
    let mut i: usize = 0;
    while i < report.issues.len()
        invariant
            issues == report.issues.deep_view(),
            issues.len() == report.issues@.len(),
            0 <= i <= issues.len(),
            out@ == mid + issues_json(report.file@, issues.subrange(0, i as int)),
        decreases issues.len() - i,
    {
        let ghost pre = out@;
        if i > 0 {
            out.append(",");
        }
        append_issue_json(out, report.file.as_str(), &report.issues[i]);
        proof {
            let part = issues.subrange(0, i + 1 as int);
            assert(part.drop_last() =~= issues.subrange(0, i as int));
            assert(part.last() == issues[i as int]);
            assert(issues[i as int] == report.issues@[i as int].deep_view());
            assert(out@ =~= mid + issues_json(report.file@, part));
        }
        i = i + 1;
    }
    proof {
        assert(issues.subrange(0, issues.len() as int) =~= issues);
    }
    out.append("]}");
}

/// Render the aggregate as newline-delimited JSON: one compact record per
/// file, one per line.
pub fn render_ndjson(agg: &AggregateReport) -> (r: String)
    ensures
        r@ == ndjson_doc(agg.reports.deep_view()),
{
    let ghost reports = agg.reports.deep_view();
    let mut out = String::new();
    let mut i: usize = 0;
    proof {
        assert(out@ =~= ndjson_doc(reports.subrange(0, 0)));
    }
    while i < agg.reports.len()
        invariant
            reports == agg.reports.deep_view(),
            reports.len() == agg.reports@.len(),
            0 <= i <= reports.len(),
            out@ == ndjson_doc(reports.subrange(0, i as int)),
        decreases reports.len() - i,
    {
        append_report_json(&mut out, &agg.reports[i]);
        out.append("\n");
        proof {
            let part = reports.subrange(0, i + 1 as int);
            assert(part.drop_last() =~= reports.subrange(0, i as int));
            assert(part.last() == reports[i as int]);
            assert(reports[i as int] == agg.reports@[i as int].deep_view());
            assert(out@ =~= ndjson_doc(part));
        }
        i = i + 1;
    }
    proof {
        assert(reports.subrange(0, reports.len() as int) =~= reports);
    }
    out
}

/// One issue inside the pretty-printed JSON document, at its fixed
/// indentation.
pub open spec fn issue_json_pretty(file: Seq<char>, i: IssueView) -> Seq<char> {
    "{\n        \"file\": \""@ + escape_seq(file) + "\",\n        \"level\": \""@
        + severity_label(i.severity) + "\",\n        \"message\": \""@ + escape_seq(i.message)
        + "\",\n        \"instance_path\": \""@ + escape_seq(i.instance_path)
        + "\",\n        \"schema_path\": \""@ + escape_seq(i.schema_path) + "\"\n      }"@
}

/// The issue objects of one report, joined inside the pretty-printed
/// document; at least one issue.
pub open spec fn issue_items_pretty(file: Seq<char>, issues: Seq<IssueView>) -> Seq<char>
    decreases issues.len(),
{
    if issues.len() <= 1 {
        issue_json_pretty(file, issues[0])
    } else {
        issue_items_pretty(file, issues.drop_last()) + ",\n      "@ + issue_json_pretty(
            file,
            issues.last(),
        )
    }
}

/// The issues array of one report in the pretty-printed document.
pub open spec fn issues_json_pretty(file: Seq<char>, issues: Seq<IssueView>) -> Seq<char> {
    if issues.len() == 0 {
        "[]"@
    } else {
        "[\n      "@ + issue_items_pretty(file, issues) + "\n    ]"@
    }
}

/// One file report in the pretty-printed document.
pub open spec fn report_json_pretty(r: FileReportView) -> Seq<char> {
    "{\n    \"file\": \""@ + escape_seq(r.file) + "\",\n    \"ok\": "@ + bool_label(r.ok)
        + ",\n    \"issues\": "@ + issues_json_pretty(r.file, r.issues) + "\n  }"@
}

/// The report objects of the document, joined; at least one report.
pub open spec fn report_items_pretty(reports: Seq<FileReportView>) -> Seq<char>
    decreases reports.len(),
{
    if reports.len() <= 1 {
        report_json_pretty(reports[0])
    } else {
        report_items_pretty(reports.drop_last()) + ",\n  "@ + report_json_pretty(reports.last())
    }
}

/// The whole aggregate as one pretty-printed JSON document: two-space
/// indentation, no trailing newline.
pub open spec fn json_doc(reports: Seq<FileReportView>) -> Seq<char> {
    if reports.len() == 0 {
        "[]"@
    } else {
        "[\n  "@ + report_items_pretty(reports) + "\n]"@
    }
}

/// Append one issue of the pretty-printed JSON document.
fn append_issue_json_pretty(out: &mut String, file: &str, issue: &crate::report::Issue)
    ensures
        final(out)@ == old(out)@ + issue_json_pretty(file@, issue@),
{
    out.append("{\n        \"file\": \"");
    append_escaped(out, file);
    out.append("\",\n        \"level\": \"");
    append_severity(out, issue.severity);
    out.append("\",\n        \"message\": \"");
    append_escaped(out, issue.message.as_str());
    out.append("\",\n        \"instance_path\": \"");
    append_escaped(out, issue.instance_path.as_str());
    out.append("\",\n        \"schema_path\": \"");
    append_escaped(out, issue.schema_path.as_str());
    out.append("\"\n      }");
}

/// Append one report of the pretty-printed JSON document.
fn append_report_json_pretty(out: &mut String, report: &crate::report::FileReport)
    ensures
        final(out)@ == old(out)@ + report_json_pretty(report@),
{
    out.append("{\n    \"file\": \"");
    append_escaped(out, report.file.as_str());
    out.append("\",\n    \"ok\": ");
    append_bool(out, report.ok);
    out.append(",\n    \"issues\": ");
    let ghost issues = report.issues.deep_view();
    if report.issues.len() == 0 {
        out.append("[]");
    } else {
        out.append("[\n      ");
        let ghost mid = out@;
        let mut i: usize = 0;
        while i < report.issues.len()
            invariant
                issues == report.issues.deep_view(),
                issues.len() == report.issues@.len(),
                0 < report.issues@.len(),
                0 <= i <= issues.len(),
                i == 0 ==> out@ == mid,
                i > 0 ==> out@ == mid + issue_items_pretty(report.file@, issues.subrange(0, i as int)),
            decreases issues.len() - i,
        {
            if i > 0 {
                out.append(",\n      ");
            }
            append_issue_json_pretty(out, report.file.as_str(), &report.issues[i]);
            proof {
                let part = issues.subrange(0, i + 1 as int);
                assert(part.drop_last() =~= issues.subrange(0, i as int));
                assert(part.last() == issues[i as int]);
                assert(issues[i as int] == report.issues@[i as int].deep_view());
                if i == 0 {
                    assert(part.len() == 1);
                    assert(part[0] == issues[0]);
                    assert(out@ =~= mid + issue_items_pretty(report.file@, part));
                } else {
                    assert(out@ =~= mid + issue_items_pretty(report.file@, part));
                }
            }
            i = i + 1;
        }
        proof {
            assert(issues.subrange(0, issues.len() as int) =~= issues);
        }
        out.append("\n    ]");
    }
    out.append("\n  }");
}

/// Render the aggregate as one pretty-printed JSON document.
pub fn render_json(agg: &AggregateReport) -> (r: String)
    ensures
        r@ == json_doc(agg.reports.deep_view()),
{
    let ghost reports = agg.reports.deep_view();
    let mut out = String::new();
    if agg.reports.len() == 0 {
        out.append("[]");
        return out;
    }
    out.append("[\n  ");
    let ghost mid = out@;
    let mut i: usize = 0;
    while i < agg.reports.len()
        invariant
            reports == agg.reports.deep_view(),
            reports.len() == agg.reports@.len(),
            0 < agg.reports@.len(),
            0 <= i <= reports.len(),
            i == 0 ==> out@ == mid,
            i > 0 ==> out@ == mid + report_items_pretty(reports.subrange(0, i as int)),
        decreases reports.len() - i,
    {
        if i > 0 {
            out.append(",\n  ");
        }
        append_report_json_pretty(&mut out, &agg.reports[i]);
        proof {
            let part = reports.subrange(0, i + 1 as int);
            assert(part.drop_last() =~= reports.subrange(0, i as int));
            assert(part.last() == reports[i as int]);
            assert(reports[i as int] == agg.reports@[i as int].deep_view());
            if i == 0 {
                assert(part.len() == 1);
                assert(part[0] == reports[0]);
                assert(out@ =~= mid + report_items_pretty(part));
            } else {
                assert(out@ =~= mid + report_items_pretty(part));
            }
        }
        i = i + 1;
    }
    proof {
        assert(reports.subrange(0, reports.len() as int) =~= reports);
    }
    out.append("\n]");
    out
}

/// The badge shown before a message in the human-readable rendering.
pub open spec fn badge(sev: Severity) -> Seq<char> {
    if sev == Severity::Error {
        "ERROR"@
    } else {
        "WARN "@
    }
}

/// One issue in the human-readable rendering: the badge and message, then
/// each pointer on its own line when present.
pub open spec fn issue_pretty(i: IssueView) -> Seq<char> {
    "  ["@ + badge(i.severity) + "] "@ + i.message + "\n"@ + (if i.instance_path.len() != 0 {
        "        at instance "@ + i.instance_path + "\n"@
    } else {
        Seq::<char>::empty()
    }) + (if i.schema_path.len() != 0 {
        "        vs schema  "@ + i.schema_path + "\n"@
    } else {
        Seq::<char>::empty()
    })
}

/// The issues of one report in the human-readable rendering, in order.
pub open spec fn issues_pretty(issues: Seq<IssueView>) -> Seq<char>
    decreases issues.len(),
{
    if issues.len() == 0 {
        Seq::<char>::empty()
    } else {
        issues_pretty(issues.drop_last()) + issue_pretty(issues.last())
    }
}

/// One file in the human-readable rendering: its mark and path, then its
/// issues.
pub open spec fn report_pretty(r: FileReportView) -> Seq<char> {
    (if r.ok {
        "\u{2713} "@
    } else {
        "\u{2717} "@
    }) + r.file + "\n"@ + issues_pretty(r.issues)
}

/// The whole aggregate in the human-readable rendering.
pub open spec fn pretty_doc(reports: Seq<FileReportView>) -> Seq<char>
    decreases reports.len(),
{
    if reports.len() == 0 {
        Seq::<char>::empty()
    } else {
        pretty_doc(reports.drop_last()) + report_pretty(reports.last())
    }
}

/// Append one issue of the human-readable rendering.
fn append_issue_pretty(out: &mut String, issue: &crate::report::Issue)
    ensures
        final(out)@ == old(out)@ + issue_pretty(issue@),
{
    out.append("  [");
    match issue.severity {
        Severity::Error => out.append("ERROR"),
        Severity::Warning => out.append("WARN "),
    }
    out.append("] ");
    out.append(issue.message.as_str());
    out.append("\n");
    if !issue.instance_path.as_str().is_empty() {
        out.append("        at instance ");
        out.append(issue.instance_path.as_str());
        out.append("\n");
    }
    if !issue.schema_path.as_str().is_empty() {
        out.append("        vs schema  ");
        out.append(issue.schema_path.as_str());
        out.append("\n");
    }
}

/// Append one report of the human-readable rendering.
fn append_report_pretty(out: &mut String, report: &crate::report::FileReport)
    ensures
        final(out)@ == old(out)@ + report_pretty(report@),
{
    if report.ok {
        out.append("\u{2713} ");
    } else {
        out.append("\u{2717} ");
    }
    out.append(report.file.as_str());
    out.append("\n");
    let ghost mid = out@;
    let ghost issues = report.issues.deep_view();
    let mut i: usize = 0;
    proof {
        assert(issues_pretty(issues.subrange(0, 0)) =~= Seq::<char>::empty());
    }
    while i < report.issues.len()
        invariant
            issues == report.issues.deep_view(),
            issues.len() == report.issues@.len(),
            0 <= i <= issues.len(),
            out@ == mid + issues_pretty(issues.subrange(0, i as int)),
        decreases issues.len() - i,
    {
        append_issue_pretty(out, &report.issues[i]);
        proof {
            let part = issues.subrange(0, i + 1 as int);
            assert(part.drop_last() =~= issues.subrange(0, i as int));
            assert(part.last() == issues[i as int]);
            assert(issues[i as int] == report.issues@[i as int].deep_view());
            assert(out@ =~= mid + issues_pretty(part));
        }
        i = i + 1;
    }
    proof {
        assert(issues.subrange(0, issues.len() as int) =~= issues);
    }
}

/// Render the aggregate as human-readable text.
pub fn render_pretty(agg: &AggregateReport) -> (r: String)
    ensures
        r@ == pretty_doc(agg.reports.deep_view()),
{
    let ghost reports = agg.reports.deep_view();
    let mut out = String::new();
    let mut i: usize = 0;
    proof {
        assert(out@ =~= pretty_doc(reports.subrange(0, 0)));
    }
    while i < agg.reports.len()
        invariant
            reports == agg.reports.deep_view(),
            reports.len() == agg.reports@.len(),
            0 <= i <= reports.len(),
            out@ == pretty_doc(reports.subrange(0, i as int)),
        decreases reports.len() - i,
    {
        append_report_pretty(&mut out, &agg.reports[i]);
        proof {
            let part = reports.subrange(0, i + 1 as int);
            assert(part.drop_last() =~= reports.subrange(0, i as int));
            assert(part.last() == reports[i as int]);
            assert(reports[i as int] == agg.reports@[i as int].deep_view());
            assert(out@ =~= pretty_doc(part));
        }
        i = i + 1;
    }
    proof {
        assert(reports.subrange(0, reports.len() as int) =~= reports);
    }
    out
}

/// Render the aggregate in the selected output mode: `json` is the one
/// pretty-printed document followed by a newline, `ndjson` one compact
/// record per line, anything else the human-readable text.
pub fn render_report(agg: &AggregateReport, format: &str) -> (r: String)
    ensures
        format@ == "json"@ ==> r@ == json_doc(agg.reports.deep_view()) + "\n"@,
        format@ == "ndjson"@ ==> r@ == ndjson_doc(agg.reports.deep_view()),
        format@ != "json"@ && format@ != "ndjson"@ ==> r@ == pretty_doc(agg.reports.deep_view()),
{
    proof {
        reveal_strlit("json");
        reveal_strlit("ndjson");
        assert("json"@.len() == 4);
        assert("ndjson"@.len() == 6);
        assert("json"@ != "ndjson"@);
    }
    if crate::text::str_eq(format, "json") {
        let mut out = render_json(agg);
        out.append("\n");
        out
    } else if crate::text::str_eq(format, "ndjson") {
        render_ndjson(agg)
    } else {
        render_pretty(agg)
    }
}

/// The process exit code of a finished run: zero exactly on overall
/// success.
pub fn exit_code(agg: &AggregateReport) -> (r: i32)
    ensures
        (r == 0) == agg.ok,
{
    if agg.ok {
        0
    } else {
        1
    }
}

} // verus!
