use agentpm::{
    aggregate, classify_whoami_response, default_base_url, exit_code, finish_file, parse_u64_dec,
    render, render_json, render_ndjson, render_pretty, render_report, token_from_json,
    token_to_json, u64_to_dec, whoami_url, Config, FileReport, Issue, Severity, TokenCache,
    WhoamiOutcome,
};

fn sample_report() -> FileReport {
    FileReport {
        file: "pkg/agent.json".to_string(),
        ok: false,
        issues: vec![
            Issue {
                severity: Severity::Error,
                message: "\"name\" is a required property".to_string(),
                instance_path: "".to_string(),
                schema_path: "/required".to_string(),
            },
            Issue {
                severity: Severity::Warning,
                message: "odd \\ text\nwith control \u{1}".to_string(),
                instance_path: "/description".to_string(),
                schema_path: "".to_string(),
            },
        ],
    }
}

fn issue_value(file: &str, level: &str, message: &str, ip: &str, sp: &str) -> serde_json::Value {
    let mut m = serde_json::Map::new();
    m.insert("file".to_string(), serde_json::Value::String(file.to_string()));
    m.insert("level".to_string(), serde_json::Value::String(level.to_string()));
    m.insert("message".to_string(), serde_json::Value::String(message.to_string()));
    m.insert("instance_path".to_string(), serde_json::Value::String(ip.to_string()));
    m.insert("schema_path".to_string(), serde_json::Value::String(sp.to_string()));
    serde_json::Value::Object(m)
}

fn report_value(r: &FileReport) -> serde_json::Value {
    let mut m = serde_json::Map::new();
    m.insert("file".to_string(), serde_json::Value::String(r.file.clone()));
    m.insert("ok".to_string(), serde_json::Value::Bool(r.ok));
    let issues: Vec<serde_json::Value> = r
        .issues
        .iter()
        .map(|i| {
            issue_value(
                &r.file,
                match i.severity {
                    Severity::Error => "error",
                    Severity::Warning => "warning",
                },
                &i.message,
                &i.instance_path,
                &i.schema_path,
            )
        })
        .collect();
    m.insert("issues".to_string(), serde_json::Value::Array(issues));
    serde_json::Value::Object(m)
}

#[test]
fn ndjson_records_hold_the_report_data() {
    let agg = aggregate(vec![sample_report()]);
    let out = render_ndjson(&agg);
    let lines: Vec<&str> = out.lines().collect();
    assert_eq!(lines.len(), 1);
    let parsed: serde_json::Value = serde_json::from_str(lines[0]).expect("valid JSON record");
    assert_eq!(parsed, report_value(&agg.reports[0]));
}

#[test]
fn json_document_holds_the_report_data() {
    let agg = aggregate(vec![sample_report()]);
    let out = render_json(&agg);
    let parsed: serde_json::Value = serde_json::from_str(&out).expect("valid JSON document");
    let expected = serde_json::Value::Array(vec![report_value(&agg.reports[0])]);
    assert_eq!(parsed, expected);
}

#[test]
fn json_document_exact_small_case() {
    let agg = aggregate(vec![FileReport {
        file: "agent.json".to_string(),
        ok: true,
        issues: Vec::new(),
    }]);
    let out = render_json(&agg);
    assert_eq!(
        out,
        "[\n  {\n    \"file\": \"agent.json\",\n    \"ok\": true,\n    \"issues\": []\n  }\n]"
    );
    let empty = aggregate(Vec::new());
    assert_eq!(render_json(&empty), "[]");
    assert_eq!(render_report(&empty, "json"), "[]\n");
}

#[test]
fn pretty_output_exact() {
    let pass = aggregate(vec![FileReport {
        file: "agent.json".to_string(),
        ok: true,
        issues: Vec::new(),
    }]);
    assert_eq!(render_pretty(&pass), "\u{2713} agent.json\n");
    let fail = aggregate(vec![FileReport {
        file: "agent.json".to_string(),
        ok: false,
        issues: vec![Issue {
            severity: Severity::Warning,
            message: "`description` should not be empty".to_string(),
            instance_path: "/description".to_string(),
            schema_path: "".to_string(),
        }],
    }]);
    assert_eq!(
        render_pretty(&fail),
        "\u{2717} agent.json\n  [WARN ] `description` should not be empty\n        at instance /description\n"
    );
}

#[test]
fn render_report_dispatches_on_format() {
    let agg = aggregate(vec![sample_report()]);
    assert_eq!(render_report(&agg, "ndjson"), render_ndjson(&agg));
    assert_eq!(render_report(&agg, "pretty"), render_pretty(&agg));
    assert_eq!(render_report(&agg, "anything-else"), render_pretty(&agg));
    let mut with_newline = render_json(&agg);
    with_newline.push('\n');
    assert_eq!(render_report(&agg, "json"), with_newline);
    assert_eq!(exit_code(&agg), 1);
}

#[test]
fn config_precedence_flag_file_default() {
    // the flag wins
    let c = Config::load_from(
        "http://flag".to_string(),
        "/home/u/.config/agentpm".to_string(),
        Some("base_url = \"http://file\"\n".to_string()),
    )
    .expect("config loads");
    assert_eq!(c.base_url, "http://flag");
    assert_eq!(c.token_file, "/home/u/.config/agentpm/token.json");
    // the file is next
    let c = Config::load_from(
        "".to_string(),
        "d".to_string(),
        Some("base_url = \"http://file\"\n".to_string()),
    )
    .expect("config loads");
    assert_eq!(c.base_url, "http://file");
    // then the default
    let c = Config::load_from("".to_string(), "d".to_string(), None).expect("config loads");
    assert_eq!(c.base_url, "https://api.agentpackagemanager.local");
    assert_eq!(c.base_url, default_base_url());
    let c = Config::load_from("".to_string(), "d".to_string(), Some("other = 1\n".to_string()))
        .expect("config loads");
    assert_eq!(c.base_url, "https://api.agentpackagemanager.local");
    // a file that is not TOML is an error
    assert!(Config::load_from("".to_string(), "d".to_string(), Some("= broken".to_string()))
        .is_err());
}

#[test]
fn token_cache_round_trips() {
    let token = TokenCache {
        access_token: "DEMO_TOKEN_CHANGE_ME".to_string(),
    };
    let text = token_to_json(&token);
    assert_eq!(text, "{\n  \"access_token\": \"DEMO_TOKEN_CHANGE_ME\"\n}");
    let back = token_from_json(&text).expect("token parses");
    assert_eq!(back.access_token, "DEMO_TOKEN_CHANGE_ME");
    assert!(token_from_json("not json").is_err());
    assert!(token_from_json("{}").is_err());
}

#[test]
fn template_renderer_replaces_keys() {
    let vars = vec![
        ("TOOL_NAME".to_string(), "demo".to_string()),
        ("TOOL_DESCRIPTION".to_string(), "a demo".to_string()),
    ];
    let out = render(
        "{\n  \"name\": \"{{TOOL_NAME}}\",\n  \"description\": \"{{TOOL_DESCRIPTION}}\"\n}",
        &vars,
    );
    assert_eq!(out, "{\n  \"name\": \"demo\",\n  \"description\": \"a demo\"\n}");
    let twice = render("{{K}} and {{K}}", &vec![("K".to_string(), "x".to_string())]);
    assert_eq!(twice, "x and x");
    let none = render("nothing here", &Vec::new());
    assert_eq!(none, "nothing here");
}

#[test]
fn decimal_parsing_and_spelling() {
    assert_eq!(parse_u64_dec("10"), Some(10));
    assert_eq!(parse_u64_dec("0"), Some(0));
    assert_eq!(parse_u64_dec(""), None);
    assert_eq!(parse_u64_dec("12a"), None);
    assert_eq!(parse_u64_dec("-3"), None);
    assert_eq!(parse_u64_dec("18446744073709551615"), Some(u64::MAX));
    assert_eq!(parse_u64_dec("18446744073709551616"), None);
    // str::parse::<u64> accepts one optional leading plus sign
    assert_eq!(parse_u64_dec("+5"), Some(5));
    assert_eq!(parse_u64_dec("+"), None);
    assert_eq!(parse_u64_dec("++5"), None);
    assert_eq!(u64_to_dec(0), "0");
    assert_eq!(u64_to_dec(12345), "12345");
    assert_eq!(u64_to_dec(u64::MAX), "18446744073709551615");
}

#[test]
fn whoami_outcomes_by_status() {
    match classify_whoami_response(200, "me@example.com".to_string(), None) {
        WhoamiOutcome::Success(t) => assert_eq!(t, "me@example.com"),
        _ => panic!("2xx must be success"),
    }
    assert!(matches!(
        classify_whoami_response(401, "".to_string(), None),
        WhoamiOutcome::Unauthorized
    ));
    assert!(matches!(
        classify_whoami_response(404, "".to_string(), None),
        WhoamiOutcome::NotFound
    ));
    match classify_whoami_response(429, "".to_string(), Some("7".to_string())) {
        WhoamiOutcome::RateLimited(d) => assert_eq!(d, Some(7)),
        _ => panic!("429 must be rate limited"),
    }
    match classify_whoami_response(429, "".to_string(), Some("soon".to_string())) {
        WhoamiOutcome::RateLimited(d) => assert_eq!(d, None),
        _ => panic!("429 must be rate limited"),
    }
    match classify_whoami_response(429, "".to_string(), Some("+5".to_string())) {
        WhoamiOutcome::RateLimited(d) => assert_eq!(d, Some(5)),
        _ => panic!("429 must be rate limited"),
    }
    match classify_whoami_response(
        500,
        "{\"code\": \"boom\", \"message\": \"server broke\"}".to_string(),
        None,
    ) {
        WhoamiOutcome::Api { code, message } => {
            assert_eq!(code.as_deref(), Some("boom"));
            assert_eq!(message.as_deref(), Some("server broke"));
        }
        _ => panic!("structured body must be Api"),
    }
    match classify_whoami_response(500, "plain text".to_string(), None) {
        WhoamiOutcome::Other(t) => assert_eq!(t, "plain text"),
        _ => panic!("plain body must be Other"),
    }
    match classify_whoami_response(503, "".to_string(), None) {
        WhoamiOutcome::Other(t) => assert_eq!(t, "HTTP 503"),
        _ => panic!("empty body must be the status line"),
    }
}

#[test]
fn finish_file_keeps_order_and_appends_write_error() {
    let issues = vec![Issue {
        severity: Severity::Warning,
        message: "w".to_string(),
        instance_path: "".to_string(),
        schema_path: "".to_string(),
    }];
    let report = finish_file(
        "agent.json".to_string(),
        issues,
        Some("disk full".to_string()),
        false,
    );
    assert_eq!(report.issues.len(), 2);
    assert_eq!(report.issues[0].message, "w");
    assert_eq!(report.issues[1].message, "Failed to write fixed file: disk full");
    assert!(!report.ok);
}

#[test]
fn ndjson_keeps_report_order() {
    let a = FileReport {
        file: "a/agent.json".to_string(),
        ok: true,
        issues: Vec::new(),
    };
    let b = FileReport {
        file: "b/agent.json".to_string(),
        ok: false,
        issues: Vec::new(),
    };
    let agg = aggregate(vec![a, b]);
    let out = render_ndjson(&agg);
    let lines: Vec<&str> = out.lines().collect();
    assert_eq!(lines.len(), 2);
    assert_eq!(
        lines[0],
        "{\"file\":\"a/agent.json\",\"ok\":true,\"issues\":[]}"
    );
    assert_eq!(
        lines[1],
        "{\"file\":\"b/agent.json\",\"ok\":false,\"issues\":[]}"
    );
}

#[test]
fn unicode_text_survives_the_json_rendering() {
    let agg = aggregate(vec![FileReport {
        file: "p\u{e4}ckage/agent.json".to_string(),
        ok: false,
        issues: vec![Issue {
            severity: Severity::Error,
            message: "h\u{e9}llo \u{2713}\ttab".to_string(),
            instance_path: "".to_string(),
            schema_path: "".to_string(),
        }],
    }]);
    let parsed: serde_json::Value =
        serde_json::from_str(&render_json(&agg)).expect("valid JSON document");
    let msg = parsed[0]["issues"][0]["message"].as_str().expect("message is a string");
    assert_eq!(msg, "h\u{e9}llo \u{2713}\ttab");
    assert_eq!(parsed[0]["file"].as_str(), Some("p\u{e4}ckage/agent.json"));
}

#[test]
fn whoami_url_trims_trailing_separators() {
    assert_eq!(whoami_url("http://x"), "http://x/whoami");
    assert_eq!(whoami_url("http://x/"), "http://x/whoami");
    assert_eq!(whoami_url("http://x///"), "http://x/whoami");
    assert_eq!(whoami_url(""), "/whoami");
}
