//! A manifest linting engine: it discovers candidate manifest files,
//! validates each against a JSON-Schema document, layers semantic checks on
//! top, optionally applies a narrow class of non-destructive auto-fixes,
//! and renders a report whose exit code gates automation pipelines.

use vstd::prelude::*;

mod cli;
mod client;
mod config;
mod discover;
mod engine;
mod jsonval;
mod render;
mod report;
mod scaffold;
mod schema;
mod text;

pub use cli::Commands;
pub use cli::LintArgs;
pub use cli::LoginArgs;
pub use cli::WhoAmIArgs;
pub use client::LogEntry;
pub use client::Page;
pub use client::RunStatus;
pub use client::Tool;
pub use client::ToolRun;
pub use client::User;
pub use client::WhoamiOutcome;
pub use client::classify_whoami_response;
pub use client::parse_u64_dec;
pub use client::u64_to_dec;
pub use client::whoami_url;
pub use config::Config;
pub use config::TokenCache;
pub use config::default_base_url;
pub use config::token_from_json;
pub use config::token_to_json;
pub use discover::accepts_file;
pub use discover::default_discovery;
pub use discover::finalize_paths;
pub use discover::join_manifest;
pub use discover::looks_like_glob;
pub use discover::manifest_name;
pub use discover::split_pattern;
pub use engine::LintOutcome;
pub use engine::finish_file;
pub use engine::lint_loaded;
pub use engine::lint_parsed;
pub use report::AggregateReport;
pub use report::FileReport;
pub use report::Issue;
pub use report::Severity;
pub use report::aggregate;
pub use report::file_passes;
pub use render::exit_code;
pub use render::render_json;
pub use render::render_ndjson;
pub use render::render_pretty;
pub use render::render_report;
pub use scaffold::InitArgs;
pub use scaffold::InitKind;
pub use scaffold::render;
pub use schema::SchemaDocument;
pub use schema::SchemaError;
pub use schema::Violation;
pub use schema::compile_schema_text;
pub use schema::is_remote_source;
pub use schema::resolve_schema_source;

verus! {

} // verus!
