//! The command tree, as plain data: what a command line asks for.
use vstd::prelude::*;

verus! {

/// A parsed command line.
pub struct Cli {
    /// Print raw JSON instead of YAML.
    pub json: bool,
    pub command: Command,
}

/// The account a command runs against.
#[derive(Clone)]
pub struct AccountOpt {
    pub account: Option<String>,
}

/// The commands.
pub enum Command {
    Import(ImportArgs),
    Validate(ValidateArgs),
    Me(AccountOpt),
    Login(LoginArgs),
    Accounts(AccountsCommand),
    AgentReadme,
}

/// `import`: from an issues file or configuration into a repository or inbox.
#[derive(Clone)]
pub struct ImportArgs {
    pub path: Option<String>,
    pub file: Option<String>,
    pub repo: Option<String>,
    pub config: Option<String>,
    pub account: Option<String>,
    pub dry_run: bool,
    pub log: Option<String>,
    pub skip_existing: bool,
}

/// `validate`: check an issues file, and optionally the repository it targets.
#[derive(Clone)]
pub struct ValidateArgs {
    pub path: Option<String>,
    pub file: Option<String>,
    pub repo: Option<String>,
    pub account: Option<String>,
}

/// `login`: store a token for an account.
#[derive(Clone)]
pub struct LoginArgs {
    pub name: String,
    pub token: Option<String>,
    pub api_key_stdin: bool,
    pub no_browser: bool,
    pub force: bool,
    pub skip_token_check: bool,
}

/// `accounts add|list|test|remove`.
#[derive(Clone)]
pub enum AccountsCommand {
    Add { name: String, token: Option<String>, api_key_stdin: bool, force: bool, skip_token_check: bool },
    List { check: bool },
    Test { name: String },
    Remove { name: String, yes: bool },
}

} // verus!
