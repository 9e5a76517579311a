//! Configuration merging — flag over file over default — and the
//! credential cache's JSON file form.

use vstd::prelude::*;
use crate::jsonval::parses_as_json;
use crate::jsonval::json_value_of;
use crate::jsonval::json_str_field;
use crate::jsonval::json_parse;
use crate::jsonval::json_str_value;
use crate::render::escape_seq;
use crate::render::append_escaped;

verus! {

/// The resolved configuration of one invocation.
pub struct Config {
    pub base_url: String,
    pub config_dir: String,
    pub token_file: String,
}

/// The cached credential.
pub struct TokenCache {
    pub access_token: String,
}

/// The API endpoint used when neither the flag nor the file names one.
pub open spec fn default_endpoint() -> Seq<char> {
    "https://api.agentpackagemanager.local"@
}

/// The default API endpoint, as a value.
pub fn default_base_url() -> (r: String)
    ensures
        r@ == default_endpoint(),
{
    "https://api.agentpackagemanager.local".to_owned()
}

/// What the configuration file text gives for `base_url`: `None` when the
/// text does not parse as TOML, `Some(None)` when it parses but holds no
/// string `base_url`.
pub uninterp spec fn toml_base_url(s: Seq<char>) -> Option<Option<Seq<char>>>;

/// Relies on `str::parse::<toml::Table>` and `toml::Table::get`: reads the
/// optional string `base_url` out of the configuration text, rejecting
/// text that is not TOML.
#[verifier::external_body]
fn parse_config_base_url(text: &str) -> (r: Result<Option<String>, String>)
    ensures
        (r is Ok) == (toml_base_url(text@) is Some),
        r matches Ok(b) ==> match (b, toml_base_url(text@)) {
            (Some(s), Some(Some(m))) => s@ == m,
            (None, Some(None)) => true,
            _ => false,
        },
{
    match text.parse::<toml::Table>() {
        Ok(t) => Ok(t.get("base_url").and_then(|v| v.as_str()).map(|s| s.to_string())),
        Err(e) => Err(e.to_string()),
    }
}

/// The merged base URL: the command-line flag when non-empty, else the
/// file's value, else the default.
pub open spec fn merged_base_url(cli: Seq<char>, file_url: Option<Seq<char>>) -> Seq<char> {
    if cli.len() > 0 {
        cli
    } else {
        match file_url {
            Some(u) => u,
            None => default_endpoint(),
        }
    }
}

impl Config {
    /// Build the configuration from its parts: the command-line flag, the
    /// per-user configuration directory, and the configuration file's text
    /// when that file exists.  A file that is not TOML is an error; an
    /// absent `base_url` falls back as the precedence says.
    pub fn load_from(cli_base_url: String, config_dir: String, file_text: Option<String>) -> (r:
        Result<Config, String>)
        ensures
            (r is Err) == (file_text matches Some(t) && toml_base_url(t@) is None),
            r matches Ok(c) ==> c.config_dir@ == config_dir@ && c.token_file@ == config_dir@
                + "/token.json"@ && c.base_url@ == merged_base_url(
                cli_base_url@,
                match file_text {
                    Some(t) => match toml_base_url(t@) {
                        Some(Some(u)) => Some(u),
                        _ => None,
                    },
                    None => None,
                },
            ),
    {
        let file_url: Option<String> = match &file_text {
            Some(t) => match parse_config_base_url(t.as_str()) {
                Ok(b) => b,
                Err(e) => {
                    return Err(e);
                },
            },
            None => None,
        };
        let base_url = if !cli_base_url.as_str().is_empty() {
            cli_base_url
        } else {
            match file_url {
                Some(u) => u,
                None => default_base_url(),
            }
        };
        let mut token_file = config_dir.clone();
        token_file.append("/token.json");
        Ok(Config { base_url, config_dir, token_file })
    }
}

/// The token cache's file form: the same pretty-printed JSON object the
/// original cache file holds.
pub open spec fn token_json(token: Seq<char>) -> Seq<char> {
    "{\n  \"access_token\": \""@ + escape_seq(token) + "\"\n}"@
}

/// Serialize the token cache for its file.
pub fn token_to_json(token: &TokenCache) -> (r: String)
    ensures
        r@ == token_json(token.access_token@),
{
    let mut out = "{\n  \"access_token\": \"".to_owned();
    append_escaped(&mut out, token.access_token.as_str());
    out.append("\"\n}");
    out
}

/// Read the token cache back from its file text: the text must be JSON
/// whose parse holds a string `access_token`, and the token is exactly
/// that field's value.
pub fn token_from_json(text: &str) -> (r: Result<TokenCache, String>)
    ensures
        (r is Ok) == (parses_as_json(text@) && json_str_field(
            json_value_of(text@),
            "access_token"@,
        ) is Some),
        r matches Ok(t) ==> json_str_field(json_value_of(text@), "access_token"@) == Some(
            t.access_token@,
        ),
{
    match json_parse(text) {
        Ok(v) => match json_str_value(&v, "access_token") {
            Some(s) => Ok(TokenCache { access_token: s }),
            None => Err("token cache has no access_token field".to_owned()),
        },
        Err(e) => Err(e),
    }
}

} // verus!
