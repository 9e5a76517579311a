use agentpm::{
    accepts_file, default_discovery, finalize_paths, is_remote_source, join_manifest,
    looks_like_glob, manifest_name, resolve_schema_source, split_pattern,
};

#[test]
fn discovery_is_idempotent() {
    let gathered = vec![
        "b/agent.json".to_string(),
        "a/agent.json".to_string(),
        "b/agent.json".to_string(),
    ];
    let once = finalize_paths(&gathered);
    assert_eq!(once, vec!["a/agent.json".to_string(), "b/agent.json".to_string()]);
    let twice = finalize_paths(&once);
    assert_eq!(twice, once);
}

#[test]
fn discovery_is_order_independent() {
    let forward = vec![
        "a/agent.json".to_string(),
        "b/agent.json".to_string(),
        "c/agent.json".to_string(),
    ];
    let backward = vec![
        "c/agent.json".to_string(),
        "b/agent.json".to_string(),
        "a/agent.json".to_string(),
        "c/agent.json".to_string(),
    ];
    assert_eq!(finalize_paths(&forward), finalize_paths(&backward));
}

#[test]
fn glob_detection() {
    assert!(looks_like_glob("src/**/agent.json"));
    assert!(looks_like_glob("agent?.json"));
    assert!(looks_like_glob("[ab]/agent.json"));
    assert!(!looks_like_glob("plain/agent.json"));
    assert!(!looks_like_glob(""));
}

#[test]
fn split_pattern_at_first_separator() {
    let (base, pat) = split_pattern("src/**/agent.json");
    assert_eq!(base, "src");
    assert_eq!(pat, "**/agent.json");
    let (base, pat) = split_pattern("*.json");
    assert_eq!(base, ".");
    assert_eq!(pat, "*.json");
}

#[test]
fn join_manifest_composes_directory_candidates() {
    assert_eq!(join_manifest("pkg"), "pkg/agent.json");
    assert_eq!(join_manifest("pkg/"), "pkg/agent.json");
    assert_eq!(join_manifest(""), "agent.json");
}

#[test]
fn file_arguments_must_be_named_exactly() {
    assert!(accepts_file("agent.json"));
    assert!(accepts_file("nested/dir/agent.json"));
    assert!(!accepts_file("other.json"));
    assert!(!accepts_file("xagent.json"));
    assert!(!accepts_file("agent.json.bak"));
}

#[test]
fn no_arguments_default() {
    assert_eq!(default_discovery(true), vec!["agent.json".to_string()]);
    assert!(default_discovery(false).is_empty());
    assert_eq!(manifest_name(), "agent.json");
}

#[test]
fn schema_source_resolution_order() {
    assert_eq!(
        resolve_schema_source(Some("my.schema.json".to_string()), true),
        "my.schema.json"
    );
    assert_eq!(
        resolve_schema_source(None, true),
        "schemas/agentpm.manifest.schema.json"
    );
    assert_eq!(
        resolve_schema_source(None, false),
        "https://raw.githubusercontent.com/agentpm-dev/cli/refs/heads/main/schemas/agentpm.manifest.schema.json"
    );
}

#[test]
fn remote_sources_are_recognized() {
    assert!(is_remote_source("http://example.com/s.json"));
    assert!(is_remote_source("https://example.com/s.json"));
    assert!(!is_remote_source("schemas/s.json"));
    assert!(!is_remote_source("httpx://nope"));
    assert!(!is_remote_source(""));
}

#[test]
fn finalize_of_nothing_is_nothing() {
    assert!(finalize_paths(&Vec::new()).is_empty());
}
