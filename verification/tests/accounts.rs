use gh_issue_import::account::identity;
use gh_issue_import::account::{describe, resolve, select_account};
use gh_issue_import::commands::accounts::{
    account_name, account_record, cancelled, confirm_prompt, confirmed, given_token, list_report,
    no_terminal_for_token, no_terminal_to_confirm, remove_target, removed_report, status_of,
    stdin_token, store_target, stored_report, test_report, token_to_check, StoredToken,
};
use gh_issue_import::commands::login::{login_message, tokens_url};
use gh_issue_import::config::{AccountConfig, Config};
use gh_issue_import::error::ErrorCode;
use gh_issue_import::json::Json;
use gh_issue_import::readme::{agent_data, manual};

fn s(v: &str) -> Json {
    Json::Str(v.to_string())
}

fn obj(fields: Vec<(&str, Json)>) -> Json {
    Json::Object(fields.into_iter().map(|(k, v)| (k.to_string(), v)).collect())
}

fn octocat() -> Json {
    obj(vec![
        ("login", s("octocat")),
        ("name", s("The Octocat")),
        ("email", s("octocat@github.com")),
    ])
}

fn text<'a>(j: &'a Json, key: &str) -> Option<&'a str> {
    j.get(key).and_then(|v| v.as_str()).map(|v| v.as_str())
}

fn with_work_account() -> Config {
    let mut c = Config::new();
    let (name, replaced) = store_target(&c, "work", false, false).unwrap();
    assert_eq!(name, "work");
    assert!(!replaced);
    let me = octocat();
    c.insert(name, account_record(Some(&me), "2024-01-01T00:00:00Z"));
    c
}

#[test]
fn reads_github_user_shape() {
    let me = octocat();
    assert_eq!(identity::user(&me), "octocat");
    assert_eq!(identity::name(&me), "The Octocat");
    assert_eq!(identity::email(&me), "octocat@github.com");
    assert_eq!(identity::describe(&me), "octocat");
}

#[test]
fn identity_of_partial_user() {
    let me = obj(vec![("login", s("octocat")), ("name", Json::Null)]);
    assert_eq!(identity::name(&me), "");
    assert_eq!(identity::email(&me), "");
    let nobody = obj(vec![]);
    assert_eq!(identity::user(&nobody), "");
}

#[test]
fn accounts_lifecycle() {
    let mut c = with_work_account();

    let entries = c.sorted();
    let statuses = vec![status_of(&StoredToken::Present("gh_test_token".to_string()), false, None)];
    let report = list_report(&entries, &statuses, "plaintext", "/tmp/cfg");
    assert_eq!(report.u64_field("count"), Some(1));
    let first = &report.get("accounts").unwrap().as_array().unwrap()[0];
    assert_eq!(text(first, "user"), Some("octocat"));
    assert_eq!(text(first, "displayName"), Some("The Octocat"));
    assert_eq!(text(first, "tokenStatus"), Some("stored"));
    assert_eq!(text(&report, "secretStore"), Some("plaintext"));

    let stored = StoredToken::Present("gh_test_token".to_string());
    assert_eq!(token_to_check(&stored, true).as_deref(), Some("gh_test_token"));
    assert_eq!(status_of(&stored, true, Some(Ok(()))), "valid");

    // A name that differs only in case is the same account.
    let e = store_target(&c, "WORK", false, false).unwrap_err();
    assert_eq!(e.code.exit_code(), 6);
    assert!(e.remediation.as_deref().unwrap().contains("--force"));

    let (name, registered) = select_account(&c, Some("Work")).unwrap();
    assert_eq!(name, "work");
    let t = test_report(&name, &registered.user, octocat());
    assert_eq!(text(&t, "tokenStatus"), Some("valid"));

    // Removing needs confirmation.
    let (name, acct) = remove_target(&c, "work").unwrap();
    let e = no_terminal_to_confirm(&name);
    assert_eq!(e.code.exit_code(), 6);
    assert_eq!(e.remediation.as_deref(), Some("gh-issue-import accounts remove work --yes"));

    c.shift_remove(&name);
    let out = removed_report(&name, &acct.user);
    assert_eq!(text(&out, "status"), Some("removed"));

    let entries = c.sorted();
    let report = list_report(&entries, &Vec::new(), "plaintext", "/tmp/cfg");
    assert_eq!(report.u64_field("count"), Some(0));
}

#[test]
fn account_is_required() {
    let c = with_work_account();

    let e = select_account(&c, None).unwrap_err();
    assert_eq!(e.code.exit_code(), 7);
    assert_eq!(e.code.as_str(), "no_account");
    assert!(e.detail.as_deref().unwrap().contains("work (octocat)"));

    let e = select_account(&c, Some("nope")).unwrap_err();
    assert_eq!(e.code.exit_code(), 7);
    assert_eq!(e.remediation.as_deref(), Some("gh-issue-import accounts list"));

    let env = e.envelope();
    assert_eq!(text(&env, "code"), Some("no_account"));
}

#[test]
fn resolve_needs_a_stored_token() {
    let c = with_work_account();
    let r = resolve(&c, Some(" WORK "), Some("gh_test_token".to_string())).unwrap();
    assert_eq!(r.name, "work");
    assert_eq!(r.token, "gh_test_token");
    assert_eq!(r.config.user, "octocat");

    let e = resolve(&c, Some("work"), Some("   ".to_string())).unwrap_err();
    assert_eq!(e.code, ErrorCode::AuthRequired);
    assert_eq!(e.message, "Account 'work' has no stored token.");
    let e = resolve(&c, Some("work"), None).unwrap_err();
    assert_eq!(e.remediation.as_deref(), Some("gh-issue-import accounts add work --token <token>"));
    let e = resolve(&c, Some(""), Some("t".to_string())).unwrap_err();
    assert_eq!(e.code, ErrorCode::NoAccount);
}

#[test]
fn accounts_are_described_by_name() {
    let empty = Config::new();
    assert_eq!(
        describe(&empty),
        "No accounts are configured yet. Run 'gh-issue-import accounts add <name> --token <token>'."
    );
    let mut c = with_work_account();
    let blank = AccountConfig {
        user: String::new(),
        name: String::new(),
        email: String::new(),
        added_at: String::new(),
    };
    c.insert("bravo".to_string(), blank);
    assert_eq!(describe(&c), "Configured accounts: bravo, work (octocat)");
    let sorted = c.sorted();
    assert_eq!(sorted[0].0, "bravo");
    assert_eq!(c.entries()[0].0, "work");
}

#[test]
fn config_keeps_one_entry_per_name() {
    let rec = |u: &str| AccountConfig {
        user: u.to_string(),
        name: String::new(),
        email: String::new(),
        added_at: String::new(),
    };
    let c = Config::from_entries(vec![
        ("a".to_string(), rec("1")),
        ("b".to_string(), rec("2")),
        ("a".to_string(), rec("3")),
    ]);
    assert_eq!(c.len(), 2);
    assert_eq!(c.entries()[0].0, "a");
    assert_eq!(c.entries()[0].1.user, "3");
    let mut c = c;
    c.shift_remove("A");
    assert_eq!(c.len(), 2);
    c.shift_remove("a");
    assert_eq!(c.len(), 1);
    assert!(c.find("B").is_some());
    assert!(!c.is_empty());
}

#[test]
fn login_command_lifecycle() {
    let mut c = Config::new();
    let me = octocat();

    let (name, replaced) = store_target(&c, "default", false, true).unwrap();
    assert!(!replaced);
    let rec = account_record(Some(&me), "now");
    let out = stored_report("logged_in", &name, &rec, true, "plaintext", "/tmp/cfg");
    c.insert(name, rec);
    assert_eq!(text(&out, "status"), Some("logged_in"));
    assert_eq!(text(&out, "name"), Some("default"));
    assert_eq!(text(&out, "user"), Some("octocat"));

    let e = store_target(&c, "default", false, true).unwrap_err();
    assert_eq!(e.code.exit_code(), 6);
    assert!(e.remediation.as_deref().unwrap().contains("--force"));
    assert_eq!(
        e.remediation.as_deref(),
        Some("Use --force to replace its token: gh-issue-import login default --force")
    );

    let (name, replaced) = store_target(&c, "default", true, true).unwrap();
    assert_eq!(name, "default");
    assert!(replaced);

    let (name, _) = store_target(&c, "staging", false, true).unwrap();
    let out = stored_report("logged_in", &name, &account_record(Some(&me), "now"), true, "plaintext", "/x");
    assert_eq!(text(&out, "name"), Some("staging"));
    assert_eq!(login_message("octocat", "staging"), "Successfully logged in as octocat to account 'staging'.");
    assert_eq!(login_message("", "x"), "Successfully logged in to account 'x'.");
    assert!(tokens_url().starts_with("https://github.com/settings/tokens"));
}

#[test]
fn token_sources() {
    assert_eq!(given_token(Some("  tok \n")).as_deref(), Some("tok"));
    assert_eq!(given_token(Some("   ")), None);
    assert_eq!(given_token(None), None);
    assert_eq!(stdin_token("gh_piped_token\n").unwrap(), "gh_piped_token");
    let e = stdin_token(" \n").unwrap_err();
    assert_eq!(e.message, "--api-key-stdin was given but stdin was empty.");
    let e = no_terminal_for_token("work", false);
    assert_eq!(e.remediation.as_deref(), Some("pbpaste | gh-issue-import accounts add work --api-key-stdin"));
    assert_eq!(account_name("  x ").unwrap(), "x");
    assert_eq!(account_name(" ").unwrap_err().code, ErrorCode::InvalidInput);
}

#[test]
fn token_statuses() {
    let blank = StoredToken::Present("  ".to_string());
    assert_eq!(status_of(&blank, true, None), "missing_token");
    assert_eq!(token_to_check(&blank, true), None);
    assert_eq!(status_of(&StoredToken::Missing, false, None), "missing_token");
    assert_eq!(status_of(&StoredToken::Unreadable, true, None), "unreadable");
    let t = StoredToken::Present("x".to_string());
    assert_eq!(token_to_check(&t, false), None);
    assert_eq!(status_of(&t, true, Some(Err(ErrorCode::AuthRequired))), "rejected");
    assert_eq!(status_of(&t, true, Some(Err(ErrorCode::Network))), "unreachable");
}

#[test]
fn removal_confirmation() {
    let acct = AccountConfig {
        user: "octocat".to_string(),
        name: String::new(),
        email: String::new(),
        added_at: String::new(),
    };
    assert_eq!(confirm_prompt("work", &acct), "Remove account work (octocat)? [y/N] ");
    assert!(confirmed(" Y\n"));
    assert!(confirmed("yes"));
    assert!(!confirmed("no"));
    assert!(!confirmed(""));
    assert_eq!(cancelled().message, "Cancelled.");
    let c = Config::new();
    let e = remove_target(&c, "ghost").unwrap_err();
    assert_eq!(e.code, ErrorCode::NoAccount);
    assert_eq!(e.message, "No account named 'ghost'.");
}

#[test]
fn test_report_warns_on_identity_drift() {
    let t = test_report("work", "someone", octocat());
    assert_eq!(
        text(&t, "warning"),
        Some("Account was registered as 'someone', but the stored token now authenticates as 'octocat'.")
    );
    let t = test_report("work", "OctoCat", octocat());
    assert!(t.get("warning").is_none());
}

#[test]
fn agent_readme_as_data() {
    let data = agent_data("0.1.0");
    let codes = data.get("exitCodes").unwrap();
    assert_eq!(text(codes, "7"), Some("no_account - run gh-issue-import accounts list"));
    assert_eq!(text(&data, "tool"), Some("gh-issue-import"));
    assert!(manual().starts_with("# gh-issue-import - agent operating manual"));
}

#[test]
fn manual_exit_codes_name_the_error_classes() {
    let data = agent_data("1.2.3");
    let codes = data.get("exitCodes").unwrap();
    let classes = [
        ErrorCode::Error,
        ErrorCode::Network,
        ErrorCode::AuthRequired,
        ErrorCode::NotFound,
        ErrorCode::RateLimited,
        ErrorCode::InvalidInput,
        ErrorCode::NoAccount,
    ];
    for c in classes {
        let line = text(codes, &c.exit_code().to_string()).unwrap();
        assert!(line.starts_with(c.as_str()));
    }
    assert_eq!(text(&data, "version"), Some("1.2.3"));
}

#[test]
fn listing_orders_every_account_by_name() {
    let rec = || AccountConfig {
        user: String::new(),
        name: String::new(),
        email: String::new(),
        added_at: String::new(),
    };
    let mut c = Config::new();
    for n in ["zeta", "Alpha", "beta", "alpha", "b"] {
        c.insert(n.to_string(), rec());
    }
    let names: Vec<String> = c.sorted().into_iter().map(|(n, _)| n).collect();
    assert_eq!(names, vec!["Alpha", "alpha", "b", "beta", "zeta"]);
    let report = list_report(&c.sorted(), &vec!["stored".to_string(); 5], "plaintext", "/d");
    assert_eq!(report.u64_field("count"), Some(5));
}
