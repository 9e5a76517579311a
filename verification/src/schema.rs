//! Schema handling: resolving the schema identifier, compiling the schema
//! document, and running schema validation through the `jsonschema` crate.

use vstd::prelude::*;
use crate::jsonval::parses_as_json;
use crate::jsonval::json_value_of;
use crate::jsonval::json_parse;

verus! {

/// The compiled schema, immutable for the whole run.  `jsonschema::Validator`
/// is generic over a representation trait that Verus cannot declare, so the
/// handle is held opaquely in this struct; its behaviour is named by
/// `schema_violations` below.
#[verifier::external_body]
pub struct SchemaDocument {
    inner: jsonschema::Validator,
}

/// One schema violation, as the validator reports it: its message and its
/// JSON pointers into the instance and into the schema.
pub struct Violation {
    pub message: String,
    pub instance_path: String,
    pub schema_path: String,
}

impl View for Violation {
    type V = (Seq<char>, Seq<char>, Seq<char>);

    open spec fn view(&self) -> (Seq<char>, Seq<char>, Seq<char>) {
        (self.message@, self.instance_path@, self.schema_path@)
    }
}

impl DeepView for Violation {
    type V = (Seq<char>, Seq<char>, Seq<char>);

    open spec fn deep_view(&self) -> (Seq<char>, Seq<char>, Seq<char>) {
        self.view()
    }
}

/// Whether `jsonschema` accepts this document as a schema under the fixed
/// dialect the linter compiles with.
pub uninterp spec fn schema_compile_ok(v: serde_json::Value) -> bool;

/// The ordered violations that the compiled schema reports on an instance:
/// message, instance pointer and schema pointer of each, in emission order.
pub uninterp spec fn schema_violations(s: SchemaDocument, v: serde_json::Value) -> Seq<
    (Seq<char>, Seq<char>, Seq<char>),
>;

/// Relies on `jsonschema::options().with_draft(..).build`: compiles the schema
/// document once, deterministically in the document.
#[verifier::external_body]
fn build_validator(v: &serde_json::Value) -> (r: Result<SchemaDocument, String>)
    ensures
        r.is_ok() == schema_compile_ok(*v),
{
    match jsonschema::options().with_draft(jsonschema::Draft::Draft202012).build(v) {
        Ok(s) => Ok(SchemaDocument { inner: s }),
        Err(e) => Err(e.to_string()),
    }
}

/// Relies on `jsonschema::Validator::iter_errors`: hands out the violations
/// in the validator's emission order, one record per violation.
#[verifier::external_body]
pub(crate) fn validate_instance(s: &SchemaDocument, v: &serde_json::Value) -> (r: Vec<Violation>)
    ensures
        r.deep_view() == schema_violations(*s, *v),
{
    let mut out: Vec<Violation> = Vec::new();
    for e in s.inner.iter_errors(v) {
        out.push(
            Violation {
                message: e.to_string(),
                instance_path: e.instance_path().to_string(),
                schema_path: e.schema_path().to_string(),
            },
        );
    }
    out
}

/// Why the schema document could not be turned into a compiled schema.
/// Either failure is fatal for the whole run: no file is linted without a
/// usable schema.
#[derive(Debug)]
pub enum SchemaError {
    /// The schema text is not well-formed JSON.
    Unreadable(String),
    /// The schema parsed but is not a valid schema under the fixed dialect.
    Uncompilable(String),
}

/// Compile a schema from its JSON text.  The text is rejected as
/// `Unreadable` exactly when it is not well-formed JSON; a well-formed
/// document compiles exactly when the `jsonschema` crate accepts it, and
/// is rejected as `Uncompilable` otherwise.
pub fn compile_schema_text(text: &str) -> (r: Result<SchemaDocument, SchemaError>)
    ensures
        (r is Ok) == (parses_as_json(text@) && schema_compile_ok(json_value_of(text@))),
        (r matches Err(SchemaError::Unreadable(_))) == !parses_as_json(text@),
        (r matches Err(SchemaError::Uncompilable(_))) == (parses_as_json(text@)
            && !schema_compile_ok(json_value_of(text@))),
{
    match json_parse(text) {
        Ok(v) => match build_validator(&v) {
            Ok(s) => Ok(s),
            Err(e) => Err(SchemaError::Uncompilable(e)),
        },
        Err(e) => Err(SchemaError::Unreadable(e)),
    }
}

/// The conventional local schema path, preferred when it exists.
pub open spec fn conventional_schema_path() -> Seq<char> {
    "schemas/agentpm.manifest.schema.json"@
}

/// The well-known remote schema used when no local schema is present.
pub open spec fn default_schema_url() -> Seq<char> {
    "https://raw.githubusercontent.com/agentpm-dev/cli/refs/heads/main/schemas/agentpm.manifest.schema.json"@
}

/// Resolve the schema identifier: an explicit override wins; otherwise the
/// conventional local path when the caller found it present, else the
/// well-known remote URL.
pub fn resolve_schema_source(override_source: Option<String>, local_present: bool) -> (r: String)
    ensures
        override_source matches Some(s) ==> r@ == s@,
        override_source is None && local_present ==> r@ == conventional_schema_path(),
        override_source is None && !local_present ==> r@ == default_schema_url(),
{
    match override_source {
        Some(s) => s,
        None => {
            if local_present {
                "schemas/agentpm.manifest.schema.json".to_owned()
            } else {
                "https://raw.githubusercontent.com/agentpm-dev/cli/refs/heads/main/schemas/agentpm.manifest.schema.json".to_owned()
            }
        },
    }
}

/// Whether the schema identifier is fetched over HTTP rather than read
/// from the filesystem.
pub open spec fn remote_source(s: Seq<char>) -> bool {
    (s.len() >= "http://"@.len() && s.subrange(0, "http://"@.len() as int) == "http://"@) || (
    s.len() >= "https://"@.len() && s.subrange(0, "https://"@.len() as int) == "https://"@)
}

/// Decide whether a schema identifier is remote.
pub fn is_remote_source(source: &str) -> (r: bool)
    ensures
        r == remote_source(source@),
{
    proof {
        reveal_strlit("http://");
        reveal_strlit("https://");
    }
    let n = source.unicode_len();
    if n >= 7 {
        let head = source.substring_char(0, 7);
        if crate::text::str_eq(head, "http://") {
            return true;
        }
    }
    if n >= 8 {
        let head = source.substring_char(0, 8);
        if crate::text::str_eq(head, "https://") {
            return true;
        }
    }
    false
}

} // verus!
