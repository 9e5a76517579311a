//! The issue engine: schema validation first, then the fixed sequence of
//! semantic rules, with the optional non-destructive auto-fix.

use vstd::prelude::*;
use crate::jsonval::parses_as_json;
use crate::jsonval::json_value_of;
use crate::jsonval::json_pretty_text;
use crate::jsonval::json_obj_keys;
use crate::jsonval::json_str_field;
use crate::jsonval::json_parse;
use crate::jsonval::json_has_key;
use crate::jsonval::json_is_object;
use crate::jsonval::json_str_value;
use crate::jsonval::json_insert_str;
use crate::jsonval::json_to_pretty;
use crate::report::Severity;
use crate::report::Issue;
use crate::report::IssueView;
use crate::report::FileReport;
use crate::report::passes;
use crate::report::has_severity;
use crate::report::file_passes;
use crate::schema::SchemaDocument;
use crate::schema::schema_violations;
use crate::schema::validate_instance;
use crate::text::blank;
use crate::text::is_blank;

verus! {

/// The manifest field that should reference the schema.
pub open spec fn hint_key() -> Seq<char> {
    "$schema"@
}

/// The manifest field whose blank value draws a warning.
pub open spec fn description_key() -> Seq<char> {
    "description"@
}

pub open spec fn hint_warning_message() -> Seq<char> {
    "Missing $schema; editors may lack IntelliSense."@
}

pub open spec fn description_warning_message() -> Seq<char> {
    "`description` should not be empty"@
}

pub open spec fn load_failure_prefix() -> Seq<char> {
    "Failed to parse JSON: "@
}

pub open spec fn write_failure_prefix() -> Seq<char> {
    "Failed to write fixed file: "@
}

/// The error issue made out of one schema violation, keeping the
/// validator's message and both pointers.
pub open spec fn violation_issue(v: (Seq<char>, Seq<char>, Seq<char>)) -> IssueView {
    IssueView {
        severity: Severity::Error,
        message: v.0,
        instance_path: v.1,
        schema_path: v.2,
    }
}

/// The warning issued when the schema hint field is absent.
pub open spec fn hint_warning() -> IssueView {
    IssueView {
        severity: Severity::Warning,
        message: hint_warning_message(),
        instance_path: Seq::<char>::empty(),
        schema_path: Seq::<char>::empty(),
    }
}

/// The warning issued when the description is present but blank.
pub open spec fn description_warning() -> IssueView {
    IssueView {
        severity: Severity::Warning,
        message: description_warning_message(),
        instance_path: "/description"@,
        schema_path: Seq::<char>::empty(),
    }
}

/// The single error issue of a file that could not be read or parsed.
pub open spec fn load_failure_issue(detail: Seq<char>) -> IssueView {
    IssueView {
        severity: Severity::Error,
        message: load_failure_prefix() + detail,
        instance_path: Seq::<char>::empty(),
        schema_path: Seq::<char>::empty(),
    }
}

/// The error issue of a failed auto-fix write-back.
pub open spec fn write_failure_issue(detail: Seq<char>) -> IssueView {
    IssueView {
        severity: Severity::Error,
        message: write_failure_prefix() + detail,
        instance_path: Seq::<char>::empty(),
        schema_path: Seq::<char>::empty(),
    }
}

/// The schema-hint rule fires when the document is not an object or lacks
/// the hint key.
pub open spec fn hint_missing(keys: Option<Set<Seq<char>>>) -> bool {
    match keys {
        Some(ks) => !ks.contains(hint_key()),
        None => true,
    }
}

/// The description rule fires when the field is present as a string and is
/// blank after trimming.
pub open spec fn description_blank(d: Option<Seq<char>>) -> bool {
    match d {
        Some(s) => blank(s),
        None => false,
    }
}

/// The semantic findings, in rule order: the schema-hint warning, then the
/// blank-description warning.
pub open spec fn semantic_issues(hint_absent: bool, desc_blank: bool) -> Seq<IssueView> {
    (if hint_absent {
        seq![hint_warning()]
    } else {
        Seq::<IssueView>::empty()
    }) + (if desc_blank {
        seq![description_warning()]
    } else {
        Seq::<IssueView>::empty()
    })
}

/// The error issues of a violation list, one per violation, in order.
pub open spec fn violation_issues(vios: Seq<(Seq<char>, Seq<char>, Seq<char>)>) -> Seq<IssueView> {
    Seq::new(vios.len(), |i: int| violation_issue(vios[i]))
}

/// The whole issue list of one parsed manifest: every schema violation as
/// an error, in emission order, followed by the semantic findings in rule
/// order.
pub open spec fn engine_issues(
    vios: Seq<(Seq<char>, Seq<char>, Seq<char>)>,
    hint_absent: bool,
    desc_blank: bool,
) -> Seq<IssueView> {
    violation_issues(vios) + semantic_issues(hint_absent, desc_blank)
}

/// What the engine hands back for one manifest: the ordered findings, and,
/// when the auto-fix ran, the new file content to write back.
pub struct LintOutcome {
    pub issues: Vec<Issue>,
    pub fixed: Option<String>,
}

/// Lint one parsed manifest document against the compiled schema: schema
/// validation first, then the semantic rules in their fixed order.  When
/// `fix` is set and the schema-hint rule fired on an object document, the
/// hint field is set to the schema identifier that was actually used and
/// the rewritten file content is returned.
pub fn lint_parsed(
    schema: &SchemaDocument,
    schema_source: &str,
    doc: &mut serde_json::Value,
    fix: bool,
) -> (r: LintOutcome)
    ensures
        r.issues.deep_view() == engine_issues(
            schema_violations(*schema, *old(doc)),
            hint_missing(json_obj_keys(*old(doc))),
            description_blank(json_str_field(*old(doc), description_key())),
        ),
        (r.fixed is Some) == (fix && hint_missing(json_obj_keys(*old(doc))) && json_obj_keys(
            *old(doc),
        ) is Some),
        r.fixed is None ==> *final(doc) == *old(doc),
        r.fixed is Some ==> json_obj_keys(*final(doc)) == Some(
            json_obj_keys(*old(doc)).unwrap().insert(hint_key()),
        ),
        r.fixed is Some ==> json_str_field(*final(doc), hint_key()) == Some(schema_source@),
        r.fixed is Some ==> forall|k: Seq<char>|
            k != hint_key() ==> json_str_field(*final(doc), k) == json_str_field(*old(doc), k),
        r.fixed is Some ==> !hint_missing(json_obj_keys(*final(doc))),
        r.fixed matches Some(c) ==> c@ == json_pretty_text(*final(doc)) + "\n"@,
        r.fixed matches Some(c) ==> c@.len() > 0 && c@[c@.len() - 1] == '\n',
{
    let violations = validate_instance(schema, &*doc);
    let ghost vios = violations.deep_view();
    let mut issues: Vec<Issue> = Vec::new();
    proof {
        assert(issues.deep_view() =~= violation_issues(vios.subrange(0, 0)));
    }
    let mut i: usize = 0;
    while i < violations.len()
        invariant
            vios == violations.deep_view(),
            vios.len() == violations@.len(),
            0 <= i <= violations@.len(),
            issues.deep_view() == violation_issues(vios.subrange(0, i as int)),
        decreases violations@.len() - i,
    {
        let ghost pre = issues.deep_view();
        let v = &violations[i];
        issues.push(
            Issue {
                severity: Severity::Error,
                message: v.message.clone(),
                instance_path: v.instance_path.clone(),
                schema_path: v.schema_path.clone(),
            },
        );
        proof {
            let post = issues.deep_view();
            let rhs = violation_issues(vios.subrange(0, i + 1 as int));
            assert(rhs.len() == i + 1);
            assert(pre.len() == i as int);
            assert(post.len() == issues@.len());
            assert(post.len() == rhs.len());
            assert forall|j: int| 0 <= j < post.len() implies post[j] == rhs[j] by {
                if j < i as int {
                    assert(post[j] == pre[j]);
                    assert(pre[j] == violation_issues(vios.subrange(0, i as int))[j]);
                } else {
                    assert(post[j] == issues@[j].deep_view());
                    assert(vios[j] == violations@[j].deep_view());
                }
            }
            assert(post =~= rhs);
        }
        i = i + 1;
    }
    proof {
        assert(vios.subrange(0, vios.len() as int) =~= vios);
    }
    let hint_absent = !json_has_key(&*doc, "$schema");
    let desc = json_str_value(&*doc, "description");
    if hint_absent {
        issues.push(
            Issue {
                severity: Severity::Warning,
                message: "Missing $schema; editors may lack IntelliSense.".to_owned(),
                instance_path: String::new(),
                schema_path: String::new(),
            },
        );
    }
    let desc_is_blank = match &desc {
        Some(d) => is_blank(d.as_str()),
        None => false,
    };
    if desc_is_blank {
        issues.push(
            Issue {
                severity: Severity::Warning,
                message: "`description` should not be empty".to_owned(),
                instance_path: "/description".to_owned(),
                schema_path: String::new(),
            },
        );
    }
    let mut fixed: Option<String> = None;
    if fix && hint_absent && json_is_object(&*doc) {
        json_insert_str(doc, "$schema", schema_source);
        let mut content = json_to_pretty(&*doc);
        content.append("\n");
        proof {
            reveal_strlit("\n");
        }
        fixed = Some(content);
    }
    proof {
        assert(issues.deep_view() =~~= engine_issues(
            vios,
            hint_missing(json_obj_keys(*old(doc))),
            description_blank(json_str_field(*old(doc), description_key())),
        ));
    }
    LintOutcome { issues, fixed }
}

/// Lint one manifest from the result of loading its text: the document the
/// rules judge is exactly the parse of the loaded text.  A read failure
/// (the `Err` case, as the caller saw it) or a parse failure becomes the
/// single error issue of that file, and the run goes on: neither is fatal.
pub fn lint_loaded(
    schema: &SchemaDocument,
    schema_source: &str,
    loaded: Result<String, String>,
    fix: bool,
) -> (r: LintOutcome)
    ensures
        loaded matches Ok(c) ==> (parses_as_json(c@) ==> r.issues.deep_view() == engine_issues(
            schema_violations(*schema, json_value_of(c@)),
            hint_missing(json_obj_keys(json_value_of(c@))),
            description_blank(json_str_field(json_value_of(c@), description_key())),
        )),
        (r.fixed is Some) == (loaded matches Ok(c) && parses_as_json(c@) && fix && hint_missing(
            json_obj_keys(json_value_of(c@)),
        ) && json_obj_keys(json_value_of(c@)) is Some),
        r.fixed matches Some(f) ==> f@.len() > 0 && f@[f@.len() - 1] == '\n',
        loaded matches Err(e) ==> r.issues.deep_view() == seq![load_failure_issue(e@)],
        loaded matches Ok(c) && !parses_as_json(c@) ==> exists|d: Seq<char>|
            r.issues.deep_view() == seq![load_failure_issue(d)],
{
    match loaded {
        Err(e) => load_failure_outcome(e),
        Ok(content) => match json_parse(content.as_str()) {
            Err(e) => load_failure_outcome(e),
            Ok(mut doc) => lint_parsed(schema, schema_source, &mut doc, fix),
        },
    }
}

/// The outcome of a file whose text never reached the engine: one error
/// issue carrying the failure, nothing to write back.
fn load_failure_outcome(detail: String) -> (r: LintOutcome)
    ensures
        r.issues.deep_view() == seq![load_failure_issue(detail@)],
        r.fixed is None,
{
    let mut message = "Failed to parse JSON: ".to_owned();
    message.append(detail.as_str());
    let mut issues: Vec<Issue> = Vec::new();
    issues.push(
        Issue {
            severity: Severity::Error,
            message,
            instance_path: String::new(),
            schema_path: String::new(),
        },
    );
    proof {
        assert(issues.deep_view() =~~= seq![load_failure_issue(detail@)]);
    }
    LintOutcome { issues, fixed: None }
}

/// Close one file's report: append the write-back failure, if any, as an
/// error issue, and decide pass/fail under the active policy.
pub fn finish_file(path: String, issues: Vec<Issue>, write_error: Option<String>, strict: bool) -> (r:
    FileReport)
    ensures
        r.file == path,
        write_error matches Some(e) ==> r.issues.deep_view() == issues.deep_view().push(
            write_failure_issue(e@),
        ),
        write_error is None ==> r.issues.deep_view() == issues.deep_view(),
        r.ok == passes(r.issues.deep_view(), strict),
{
    let ghost dv0 = issues.deep_view();
    let mut issues = issues;
    match write_error {
        Some(e) => {
            let mut message = "Failed to write fixed file: ".to_owned();
            message.append(e.as_str());
            issues.push(
                Issue {
                    severity: Severity::Error,
                    message,
                    instance_path: String::new(),
                    schema_path: String::new(),
                },
            );
            proof {
                assert(issues.deep_view() =~~= dv0.push(write_failure_issue(e@)));
            }
        },
        None => {},
    }
    let ok = file_passes(&issues, strict);
    FileReport { file: path, ok, issues }
}

} // verus!

verus! {

proof fn lemma_semantic_warnings(hint_absent: bool, desc_blank: bool)
    ensures
        forall|i: int|
            0 <= i < semantic_issues(hint_absent, desc_blank).len()
                ==> (#[trigger] semantic_issues(hint_absent, desc_blank)[i]).severity
                == Severity::Warning,
{
    let s = semantic_issues(hint_absent, desc_blank);
    assert forall|i: int| 0 <= i < s.len() implies (#[trigger] s[i]).severity == Severity::Warning by {
        if hint_absent && i == 0 {
            assert(s[0] == hint_warning());
        } else if hint_absent {
            assert(s[i] == description_warning());
        } else {
            assert(s[i] == description_warning());
        }
    }
}

/// Law: a manifest with no schema violations, the schema hint present and
/// no blank description draws no issues at all and passes under either
/// policy.
pub proof fn lemma_clean_manifest_passes(vios: Seq<(Seq<char>, Seq<char>, Seq<char>)>, strict: bool)
    requires
        vios.len() == 0,
    ensures
        engine_issues(vios, false, false).len() == 0,
        passes(engine_issues(vios, false, false), strict),
{
    let issues = engine_issues(vios, false, false);
    assert(issues.len() == 0);
}

/// Law: under the lenient policy a file fails exactly when schema
/// validation reported a violation; the semantic findings are warnings and
/// never fail it.
pub proof fn lemma_lenient_policy(
    vios: Seq<(Seq<char>, Seq<char>, Seq<char>)>,
    hint_absent: bool,
    desc_blank: bool,
)
    ensures
        passes(engine_issues(vios, hint_absent, desc_blank), false) == (vios.len() == 0),
{
    let issues = engine_issues(vios, hint_absent, desc_blank);
    let sem = semantic_issues(hint_absent, desc_blank);
    if vios.len() > 0 {
        assert(issues[0] == violation_issues(vios)[0]);
        assert(issues[0].severity == Severity::Error);
        assert(has_severity(issues, Severity::Error));
    } else {
        lemma_semantic_warnings(hint_absent, desc_blank);
        if has_severity(issues, Severity::Error) {
            let i = choose|i: int|
                0 <= i < issues.len() && (#[trigger] issues[i]).severity == Severity::Error;
            assert(issues[i] == sem[i]);
            assert(false);
        }
    }
}

/// Law: under the strict policy a file passes exactly when nothing at all
/// was found: no schema violation, the hint present, the description not
/// blank.
pub proof fn lemma_strict_policy(
    vios: Seq<(Seq<char>, Seq<char>, Seq<char>)>,
    hint_absent: bool,
    desc_blank: bool,
)
    ensures
        passes(engine_issues(vios, hint_absent, desc_blank), true) == (vios.len() == 0
            && !hint_absent && !desc_blank),
{
    let issues = engine_issues(vios, hint_absent, desc_blank);
    let sem = semantic_issues(hint_absent, desc_blank);
    if vios.len() > 0 {
        assert(issues[0] == violation_issues(vios)[0]);
        assert(issues[0].severity == Severity::Error);
        assert(has_severity(issues, Severity::Error));
    } else if hint_absent {
        assert(issues[0] == sem[0]);
        assert(sem[0] == hint_warning());
        assert(has_severity(issues, Severity::Warning));
    } else if desc_blank {
        assert(issues[0] == sem[0]);
        assert(sem[0] == description_warning());
        assert(has_severity(issues, Severity::Warning));
    } else {
        assert(issues.len() == 0);
    }
}

/// Law: a missing schema hint adds exactly one finding — the hint warning,
/// at its fixed place right after the schema violations — and changes
/// nothing else in the issue list.
pub proof fn lemma_hint_warning_added(
    vios: Seq<(Seq<char>, Seq<char>, Seq<char>)>,
    desc_blank: bool,
)
    ensures
        engine_issues(vios, true, desc_blank) == engine_issues(vios, false, desc_blank).insert(
            vios.len() as int,
            hint_warning(),
        ),
{
    let with = engine_issues(vios, true, desc_blank);
    let without = engine_issues(vios, false, desc_blank);
    without.insert_ensures(vios.len() as int, hint_warning());
    let ins = without.insert(vios.len() as int, hint_warning());
    assert(with.len() == ins.len());
    assert forall|k: int| 0 <= k < with.len() implies with[k] == ins[k] by {
        if k < vios.len() {
            assert(with[k] == violation_issues(vios)[k]);
            assert(without[k] == violation_issues(vios)[k]);
        } else if k == vios.len() {
            assert(with[k] == semantic_issues(true, desc_blank)[0]);
        } else {
            assert(with[k] == semantic_issues(true, desc_blank)[k - vios.len()]);
            assert(semantic_issues(true, desc_blank)[1] == description_warning());
            assert(ins[k] == without[k - 1]);
            assert(without[k - 1] == semantic_issues(false, desc_blank)[k - 1 - vios.len()]);
        }
    }
    assert(with =~= ins);
}

/// Law: the auto-fix is idempotent at the document level — a document that
/// already carries the schema hint, in particular one the fix has just
/// rewritten, asks for no further fix, so a second run writes nothing and
/// leaves the file exactly as the first run left it.
pub proof fn lemma_fix_idempotent(keys: Set<Seq<char>>)
    ensures
        !hint_missing(Some(keys.insert(hint_key()))),
{
}

/// Law: round trip — a re-lint of a document whose schema hint is present
/// (as it is after the fix) never reports the schema-hint warning.
pub proof fn lemma_fix_round_trip(vios: Seq<(Seq<char>, Seq<char>, Seq<char>)>, desc_blank: bool)
    ensures
        forall|i: int|
            0 <= i < engine_issues(vios, false, desc_blank).len()
                ==> #[trigger] engine_issues(vios, false, desc_blank)[i] != hint_warning(),
{
    reveal_strlit("Missing $schema; editors may lack IntelliSense.");
    reveal_strlit("`description` should not be empty");
    let issues = engine_issues(vios, false, desc_blank);
    let sem = semantic_issues(false, desc_blank);
    assert forall|i: int| 0 <= i < issues.len() implies #[trigger] issues[i] != hint_warning() by {
        if i < vios.len() {
            assert(issues[i] == violation_issues(vios)[i]);
            assert(issues[i].severity == Severity::Error);
        } else {
            assert(issues[i] == sem[i - vios.len()]);
            assert(sem[i - vios.len()] == description_warning());
            assert(description_warning().message.len() != hint_warning().message.len());
        }
    }
}

} // verus!
