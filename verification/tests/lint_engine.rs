use agentpm::{aggregate, compile_schema_text, exit_code, finish_file, lint_loaded, Severity};

const SCHEMA: &str = r#"{
  "$schema": "https://json-schema.org/draft/2020-12/schema",
  "type": "object",
  "required": ["name"],
  "properties": {
    "name": { "type": "string" },
    "description": { "type": "string" }
  }
}"#;

const SOURCE: &str = "schemas/agentpm.manifest.schema.json";

#[test]
fn clean_manifest_passes_both_policies() {
    let schema = compile_schema_text(SCHEMA).expect("schema compiles");
    let manifest = r#"{"$schema": "s", "name": "demo", "description": "a demo"}"#;
    let outcome = lint_loaded(&schema, SOURCE, Ok(manifest.to_string()), false);
    assert_eq!(outcome.issues.len(), 0);
    assert!(outcome.fixed.is_none());
    let lenient = finish_file("agent.json".to_string(), outcome.issues, None, false);
    assert!(lenient.ok);
    let outcome2 = lint_loaded(&schema, SOURCE, Ok(manifest.to_string()), false);
    let strict = finish_file("agent.json".to_string(), outcome2.issues, None, true);
    assert!(strict.ok);
}

#[test]
fn missing_hint_adds_exactly_one_warning() {
    let schema = compile_schema_text(SCHEMA).expect("schema compiles");
    let manifest = r#"{"name": "demo", "description": "a demo"}"#;
    let outcome = lint_loaded(&schema, SOURCE, Ok(manifest.to_string()), false);
    assert_eq!(outcome.issues.len(), 1);
    assert!(outcome.issues[0].severity == Severity::Warning);
    assert_eq!(
        outcome.issues[0].message,
        "Missing $schema; editors may lack IntelliSense."
    );
    let lenient = finish_file("agent.json".to_string(), outcome.issues, None, false);
    assert!(lenient.ok);
    let outcome2 = lint_loaded(&schema, SOURCE, Ok(manifest.to_string()), false);
    let strict = finish_file("agent.json".to_string(), outcome2.issues, None, true);
    assert!(!strict.ok);
}

#[test]
fn autofix_adds_hint_and_is_idempotent() {
    let schema = compile_schema_text(SCHEMA).expect("schema compiles");
    let manifest = r#"{"name": "demo"}"#;
    let first = lint_loaded(&schema, SOURCE, Ok(manifest.to_string()), true);
    let fixed = first.fixed.expect("fix produced content");
    assert!(fixed.ends_with('\n'));
    // the fixed file parses and carries the hint
    let v: serde_json::Value = serde_json::from_str(&fixed).expect("fixed content is JSON");
    assert_eq!(v.get("$schema").and_then(|s| s.as_str()), Some(SOURCE));
    assert_eq!(v.get("name").and_then(|s| s.as_str()), Some("demo"));
    // a second fixing run finds nothing to fix: the file stays as it is
    let second = lint_loaded(&schema, SOURCE, Ok(fixed.clone()), true);
    assert!(second.fixed.is_none());
}

#[test]
fn fixed_manifest_relints_without_hint_warning() {
    let schema = compile_schema_text(SCHEMA).expect("schema compiles");
    let manifest = r#"{"name": "demo"}"#;
    let first = lint_loaded(&schema, SOURCE, Ok(manifest.to_string()), true);
    let fixed = first.fixed.expect("fix produced content");
    let again = lint_loaded(&schema, SOURCE, Ok(fixed), false);
    assert!(again
        .issues
        .iter()
        .all(|i| i.message != "Missing $schema; editors may lack IntelliSense."));
    assert_eq!(again.issues.len(), 0);
}

#[test]
fn invalid_json_single_error_does_not_stop_the_run() {
    let schema = compile_schema_text(SCHEMA).expect("schema compiles");
    let bad = lint_loaded(&schema, SOURCE, Ok("{ not json".to_string()), false);
    assert_eq!(bad.issues.len(), 1);
    assert!(bad.issues[0].severity == Severity::Error);
    assert!(bad.issues[0].message.starts_with("Failed to parse JSON: "));
    assert!(bad.fixed.is_none());
    // the next file is processed normally
    let good = lint_loaded(
        &schema,
        SOURCE,
        Ok(r#"{"$schema": "s", "name": "demo"}"#.to_string()),
        false,
    );
    assert_eq!(good.issues.len(), 0);
    let reports = vec![
        finish_file("bad.json".to_string(), bad.issues, None, false),
        finish_file("agent.json".to_string(), good.issues, None, false),
    ];
    let agg = aggregate(reports);
    assert!(!agg.ok);
    assert_eq!(agg.reports.len(), 2);
    assert!(!agg.reports[0].ok);
    assert!(agg.reports[1].ok);
}

#[test]
fn unreadable_file_single_error() {
    let schema = compile_schema_text(SCHEMA).expect("schema compiles");
    let outcome = lint_loaded(
        &schema,
        SOURCE,
        Err("Failed to read agent.json".to_string()),
        false,
    );
    assert_eq!(outcome.issues.len(), 1);
    assert!(outcome.issues[0].severity == Severity::Error);
    assert_eq!(
        outcome.issues[0].message,
        "Failed to parse JSON: Failed to read agent.json"
    );
}

#[test]
fn empty_object_fails_schema_requiring_name() {
    let schema = compile_schema_text(SCHEMA).expect("schema compiles");
    let outcome = lint_loaded(&schema, SOURCE, Ok("{}".to_string()), false);
    let errors: Vec<_> = outcome
        .issues
        .iter()
        .filter(|i| i.severity == Severity::Error)
        .collect();
    assert!(!errors.is_empty());
    assert!(errors
        .iter()
        .any(|i| i.instance_path.is_empty() || i.instance_path == "/name"));
    let lenient = finish_file("agent.json".to_string(), outcome.issues, None, false);
    assert!(!lenient.ok);
    let outcome2 = lint_loaded(&schema, SOURCE, Ok("{}".to_string()), false);
    let strict = finish_file("agent.json".to_string(), outcome2.issues, None, true);
    assert!(!strict.ok);
}

#[test]
fn blank_description_warns_at_its_pointer() {
    let schema = compile_schema_text(SCHEMA).expect("schema compiles");
    let manifest = r#"{"$schema": "s", "name": "demo", "description": "   "}"#;
    let outcome = lint_loaded(&schema, SOURCE, Ok(manifest.to_string()), false);
    assert_eq!(outcome.issues.len(), 1);
    assert!(outcome.issues[0].severity == Severity::Warning);
    assert_eq!(outcome.issues[0].message, "`description` should not be empty");
    assert_eq!(outcome.issues[0].instance_path, "/description");
    let lenient = finish_file("agent.json".to_string(), outcome.issues, None, false);
    assert!(lenient.ok);
    let outcome2 = lint_loaded(&schema, SOURCE, Ok(manifest.to_string()), false);
    let strict = finish_file("agent.json".to_string(), outcome2.issues, None, true);
    assert!(!strict.ok);
}

#[test]
fn zero_files_is_a_passing_run() {
    let agg = aggregate(Vec::new());
    assert!(agg.ok);
    assert_eq!(agg.reports.len(), 0);
    assert_eq!(exit_code(&agg), 0);
}

#[test]
fn issue_order_violations_before_semantic() {
    let schema = compile_schema_text(SCHEMA).expect("schema compiles");
    // fails the schema (name missing), lacks the hint, and has a blank
    // description: the violations come first, then the two warnings in
    // rule order
    let manifest = r#"{"description": " "}"#;
    let outcome = lint_loaded(&schema, SOURCE, Ok(manifest.to_string()), false);
    let n = outcome.issues.len();
    assert!(n >= 3);
    for i in &outcome.issues[..n - 2] {
        assert!(i.severity == Severity::Error);
    }
    assert_eq!(
        outcome.issues[n - 2].message,
        "Missing $schema; editors may lack IntelliSense."
    );
    assert_eq!(outcome.issues[n - 1].instance_path, "/description");
}

#[test]
fn write_failure_becomes_error_issue() {
    let report = finish_file(
        "agent.json".to_string(),
        Vec::new(),
        Some("permission denied".to_string()),
        false,
    );
    assert_eq!(report.issues.len(), 1);
    assert!(report.issues[0].severity == Severity::Error);
    assert_eq!(
        report.issues[0].message,
        "Failed to write fixed file: permission denied"
    );
    assert!(!report.ok);
}

#[test]
fn schema_errors_are_fatal_and_distinguished() {
    match compile_schema_text("{ nope") {
        Err(agentpm::SchemaError::Unreadable(_)) => {}
        _ => panic!("unparsable schema must be Unreadable"),
    }
    match compile_schema_text(r#"{"type": 17}"#) {
        Err(agentpm::SchemaError::Uncompilable(_)) => {}
        _ => panic!("ill-formed schema must be Uncompilable"),
    }
    assert!(compile_schema_text(SCHEMA).is_ok());
}

#[test]
fn non_object_manifest_warns_and_cannot_be_fixed() {
    let schema = compile_schema_text(SCHEMA).expect("schema compiles");
    let outcome = lint_loaded(&schema, SOURCE, Ok("[1, 2]".to_string()), true);
    // the hint rule fires (no object, no hint), but the fix cannot apply
    assert!(outcome
        .issues
        .iter()
        .any(|i| i.message == "Missing $schema; editors may lack IntelliSense."));
    assert!(outcome.fixed.is_none());
}
