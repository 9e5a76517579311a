//! The command surface: each subcommand's options, as plain data.

use vstd::prelude::*;
use crate::scaffold::InitArgs;

verus! {

/// The options of the `lint` subcommand.
pub struct LintArgs {
    /// Files, directories or globs to lint; empty means the conventional
    /// manifest in the current directory.
    pub paths: Vec<String>,
    /// Overrides the schema URL or path.
    pub schema: Option<String>,
    /// Treat warnings as errors.
    pub strict: bool,
    /// Output format: `pretty`, `json` or `ndjson`.
    pub format: String,
    /// Attempt the non-invasive automatic fixes.
    pub fix: bool,
}

/// The options of the `login` subcommand.
pub struct LoginArgs {}

/// The options of the `whoami` subcommand.
pub struct WhoAmIArgs {}

/// One invocation's subcommand with its options.
pub enum Commands {
    Whoami(WhoAmIArgs),
    Login(LoginArgs),
    Init(InitArgs),
    Lint(LintArgs),
}

} // verus!
