//! The operating manual that an agent reads before its first call: Markdown, or the same
//! rules as data.
use vstd::prelude::*;

use crate::error::{ErrorCode, spec_code_name, spec_exit_code};
use crate::json::{Json, JsonV, json_fields_view, json_seq_view, jstr_of, lemma_fields_view, lemma_seq_view};
use crate::text::owned;

verus! {

/// The manual in Markdown.
pub const MANUAL: &'static str = r#"# gh-issue-import - agent operating manual

A native Rust CLI for importing GitHub issues from YAML/JSON files and remote repositories
with full idempotency tracking, milestone mapping, labels, and assignees.

Results are YAML on stdout, errors are YAML on stderr, and `--json` switches both to JSON.
Prompts and warnings go to stderr, so stdout is always safe to parse.

## Always name the account

`--account` (short `-a`) is required on every command that touches the GitHub API. There is no
implicit default account - this prevents accidents when multiple organizations are configured.

    gh-issue-import accounts list
    gh-issue-import import issues.yaml --repo owner/repo -a work

### Managing accounts

    gh-issue-import login [<name>] [--token <token>]  # opens browser to create token
    gh-issue-import accounts add <name> --token <token> [--force]
    printf %s "$TOKEN" | gh-issue-import accounts add <name> --api-key-stdin
    gh-issue-import accounts list [--check]
    gh-issue-import accounts test <name>
    gh-issue-import accounts remove <name> --yes

Tokens are stored securely in the native OS keystore (macOS Keychain, Linux Secret Service,
Windows DPAPI).

## Validating issue files

Before importing, validate the YAML/JSON structure and required fields locally:

    gh-issue-import validate -f issues.yaml
    gh-issue-import validate issues.json --repo owner/repo -a work

## Importing issues

Import issues into a target GitHub repository:

    gh-issue-import import issues.yaml --repo owner/repo -a work
    gh-issue-import import issues.yaml --repo owner/repo -a work --dry-run
    gh-issue-import import issues.yaml --repo owner/repo -a work --skip-existing
    gh-issue-import import -c config.yaml -a work

### Idempotency tracking

Every created issue is recorded in `import-log.json` (or custom `--log <path>`). If an issue
has already been imported, subsequent runs skip it automatically.

### File format (YAML or JSON)

A list of issues or an object with an `issues` list:

```yaml
issues:
  - title: "Implement dark mode toggle"
    body: "Provide user-configurable dark theme toggle in navigation bar."
    labels: ["enhancement", "ui"]
    milestone: "v1.0"
    assignees: ["octocat"]
  - title: "Fix connection timeout in client"
    body: "Handle socket timeouts gracefully when offline."
    labels: ["bug"]
```

## Errors and exit codes

Failures output a structured envelope on stderr with a stable machine-readable `code`:

    0  ok
    1  error          unclassified - report it and stop
    2  network        retry once, then stop
    3  auth_required  stop; give the human the remediation string verbatim
    4  not_found      repository or resource does not exist; do not retry
    5  rate_limited   GitHub API rate limit exceeded; back off before retrying
    6  invalid_input  fix the arguments or file format
    7  no_account     run `gh-issue-import accounts list`
"#;

/// The manual in Markdown.
pub fn manual() -> (r: &'static str)
    ensures
        r@ == MANUAL@,
{
    MANUAL
}

/// The rules an agent follows.
pub open spec fn spec_rules() -> Seq<JsonV> {
    seq![
            JsonV::Str("Pass --account (-a) on commands that interact with the GitHub API. There is no default account."@),
            JsonV::Str("Run 'gh-issue-import accounts list' first if you do not know which accounts exist."@),
            JsonV::Str("On exit code 3 (auth_required), stop immediately and surface the remediation string."@),
            JsonV::Str("Use 'validate' on issue files before running 'import' to verify schemas and required fields."@),
            JsonV::Str("Imports are tracked in import-log.json for idempotency. Re-running will not duplicate imported issues."@),
            JsonV::Str("Use --dry-run with 'import' to preview issues that would be created without touching GitHub."@),
            JsonV::Str("Use --json when you are going to parse or process the CLI output."@)
    ]
}

/// What each exit code means to an agent.
pub open spec fn spec_exit_codes() -> Seq<(Seq<char>, JsonV)> {
    seq![
            ("0"@, JsonV::Str("ok"@)),
            ("1"@, JsonV::Str("error - unclassified, report and stop"@)),
            ("2"@, JsonV::Str("network - retry once, then stop"@)),
            ("3"@, JsonV::Str("auth_required - stop, surface the remediation to a human"@)),
            ("4"@, JsonV::Str("not_found - do not retry"@)),
            ("5"@, JsonV::Str("rate_limited - back off before retrying"@)),
            ("6"@, JsonV::Str("invalid_input - fix the call"@)),
            ("7"@, JsonV::Str("no_account - run gh-issue-import accounts list"@))
    ]
}

/// The manual as data, for the given version of the tool.
pub open spec fn spec_agent_data(version: Seq<char>) -> JsonV {
    JsonV::Object(
        seq![
            ("tool"@, JsonV::Str("gh-issue-import"@)),
            ("version"@, JsonV::Str(version)),
            ("rules"@, JsonV::Array(spec_rules())),
            ("exitCodes"@, JsonV::Object(spec_exit_codes())),
        ],
    )
}

fn field(k: &str, v: Json) -> (r: (String, Json))
    ensures
        r.0@ == k@,
        r.1 == v,
{
    (owned(k), v)
}

/// The manual as data.
pub fn agent_data(version: &str) -> (r: Json)
    ensures
        r@ == spec_agent_data(version@),
{
    let mut rules: Vec<Json> = Vec::new();
    rules.push(jstr_of("Pass --account (-a) on commands that interact with the GitHub API. There is no default account."));
    rules.push(jstr_of("Run 'gh-issue-import accounts list' first if you do not know which accounts exist."));
    rules.push(jstr_of("On exit code 3 (auth_required), stop immediately and surface the remediation string."));
    rules.push(jstr_of("Use 'validate' on issue files before running 'import' to verify schemas and required fields."));
    rules.push(jstr_of("Imports are tracked in import-log.json for idempotency. Re-running will not duplicate imported issues."));
    rules.push(jstr_of("Use --dry-run with 'import' to preview issues that would be created without touching GitHub."));
    rules.push(jstr_of("Use --json when you are going to parse or process the CLI output."));
    proof {
        lemma_seq_view(rules@);
        assert(json_seq_view(rules@) =~= spec_rules());
    }
    let mut codes: Vec<(String, Json)> = Vec::new();
    codes.push(field("0", jstr_of("ok")));
    codes.push(field("1", jstr_of("error - unclassified, report and stop")));
    codes.push(field("2", jstr_of("network - retry once, then stop")));
    codes.push(field("3", jstr_of("auth_required - stop, surface the remediation to a human")));
    codes.push(field("4", jstr_of("not_found - do not retry")));
    codes.push(field("5", jstr_of("rate_limited - back off before retrying")));
    codes.push(field("6", jstr_of("invalid_input - fix the call")));
    codes.push(field("7", jstr_of("no_account - run gh-issue-import accounts list")));
    proof {
        lemma_fields_view(codes@);
        assert(json_fields_view(codes@) =~= spec_exit_codes());
    }
    let mut f: Vec<(String, Json)> = Vec::new();
    f.push(field("tool", jstr_of("gh-issue-import")));
    f.push(field("version", jstr_of(version)));
    f.push(field("rules", Json::Array(rules)));
    f.push(field("exitCodes", Json::Object(codes)));
    proof {
        lemma_fields_view(f@);
        assert(json_fields_view(f@) =~= match spec_agent_data(version@) {
            JsonV::Object(x) => x,
            _ => Seq::empty(),
        });
    }
    Json::Object(f)
}

/// The manual's exit codes agree with the error classes: the entry for a class's exit code
/// is that code in decimal, and its meaning starts with the class's name.
pub proof fn law_manual_matches_error_classes(c: ErrorCode)
    ensures
        spec_exit_codes()[spec_exit_code(c) as int].0 == crate::text::decimal(spec_exit_code(c) as nat),
        crate::text::starts_with(
            crate::json::jstr(spec_exit_codes()[spec_exit_code(c) as int].1)->0,
            spec_code_name(c),
        ),
{
        reveal_strlit("1");
        reveal_strlit("error - unclassified, report and stop");
        reveal_strlit("error");
        reveal_strlit("2");
        reveal_strlit("network - retry once, then stop");
        reveal_strlit("network");
        reveal_strlit("3");
        reveal_strlit("auth_required - stop, surface the remediation to a human");
        reveal_strlit("auth_required");
        reveal_strlit("4");
        reveal_strlit("not_found - do not retry");
        reveal_strlit("not_found");
        reveal_strlit("5");
        reveal_strlit("rate_limited - back off before retrying");
        reveal_strlit("rate_limited");
        reveal_strlit("6");
        reveal_strlit("invalid_input - fix the call");
        reveal_strlit("invalid_input");
        reveal_strlit("7");
        reveal_strlit("no_account - run gh-issue-import accounts list");
        reveal_strlit("no_account");
    reveal_with_fuel(crate::text::decimal, 1);
    match c {
        ErrorCode::Error => {
            assert("error - unclassified, report and stop"@.subrange(0, 5) =~= "error"@);
        },
        ErrorCode::Network => {
            assert("network - retry once, then stop"@.subrange(0, 7) =~= "network"@);
        },
        ErrorCode::AuthRequired => {
            assert("auth_required - stop, surface the remediation to a human"@.subrange(0, 13) =~= "auth_required"@);
        },
        ErrorCode::NotFound => {
            assert("not_found - do not retry"@.subrange(0, 9) =~= "not_found"@);
        },
        ErrorCode::RateLimited => {
            assert("rate_limited - back off before retrying"@.subrange(0, 12) =~= "rate_limited"@);
        },
        ErrorCode::InvalidInput => {
            assert("invalid_input - fix the call"@.subrange(0, 13) =~= "invalid_input"@);
        },
        ErrorCode::NoAccount => {
            assert("no_account - run gh-issue-import accounts list"@.subrange(0, 10) =~= "no_account"@);
        },
    }
}

} // verus!
