use gh_issue_import::cli::{ImportArgs, ValidateArgs};
use gh_issue_import::commands::import::inbox::{InboxAction, InboxImport};
use gh_issue_import::commands::import::{
    explicit_input, issue_key_of, issues_from_search, resolve_input_path, run, source_query,
    titles_of_listing, ImportMode, RepoAction, RepoImport,
};
use gh_issue_import::commands::validate::{self, input_path, validate_batch, validate_issues, ValidatePlan};
use gh_issue_import::error::ErrorCode;
use gh_issue_import::importer::{
    classify_input, find_milestone, parse_repo, read_failure, resolve_milestone, BatchConfig,
    ImportLog, IssueItem, MilestoneRef, ParsedInput, SourceConfig,
};
use gh_issue_import::json::Json;

fn s(v: &str) -> Json {
    Json::Str(v.to_string())
}

fn obj(fields: Vec<(&str, Json)>) -> Json {
    Json::Object(fields.into_iter().map(|(k, v)| (k.to_string(), v)).collect())
}

fn text<'a>(j: &'a Json, key: &str) -> Option<&'a str> {
    j.get(key).and_then(|v| v.as_str()).map(|v| v.as_str())
}

fn issue(title: &str) -> IssueItem {
    IssueItem {
        title: title.to_string(),
        body: None,
        labels: None,
        milestone: None,
        assignees: None,
        id: None,
        state: None,
    }
}

fn validate_args(repo: Option<&str>, account: Option<&str>) -> ValidateArgs {
    ValidateArgs {
        path: None,
        file: Some("issues.yaml".to_string()),
        repo: repo.map(|r| r.to_string()),
        account: account.map(|a| a.to_string()),
    }
}

fn import_args(repo: Option<&str>) -> ImportArgs {
    ImportArgs {
        path: None,
        file: None,
        repo: repo.map(|r| r.to_string()),
        config: None,
        account: None,
        dry_run: false,
        log: None,
        skip_existing: false,
    }
}

fn finished(a: RepoAction) -> Json {
    match a {
        RepoAction::Finish(r) => r,
        RepoAction::CreateIssue(_) => panic!("expected the report, got a creation"),
        RepoAction::ListMilestones => panic!("expected the report, got a milestone listing"),
    }
}

#[test]
fn validate_command() {
    let mut first = issue("Bug: login button broken");
    first.body = Some("Button does not respond to clicks".to_string());
    first.labels = Some(vec!["bug".to_string(), "ui".to_string()]);
    first.milestone = Some(MilestoneRef::Number(1));
    first.assignees = Some(vec!["octocat".to_string()]);
    let mut second = issue("Feature: export to csv");
    second.labels = Some(vec!["enhancement".to_string()]);
    let parsed = ParsedInput::Issues(vec![first, second]);

    match validate::run("valid.yaml", &parsed, &validate_args(None, None)).unwrap() {
        ValidatePlan::Done(out) => {
            assert_eq!(text(&out, "status"), Some("valid"));
            assert_eq!(out.u64_field("issuesCount"), Some(2));
        }
        ValidatePlan::CheckRepo { .. } => panic!("nothing to check without a repository"),
    }

    let mut untitled = issue("");
    untitled.body = Some("No title provided".to_string());
    let parsed = ParsedInput::Issues(vec![untitled]);
    let e = validate::run("invalid.yaml", &parsed, &validate_args(None, None)).unwrap_err();
    assert_eq!(e.code.exit_code(), 6);
    assert!(e.message.contains("missing a required 'title'"));
    let env = e.envelope();
    assert!(text(&env, "error").unwrap().contains("missing a required 'title'"));
}

#[test]
fn validate_with_repository_and_account_asks_for_a_check() {
    let mut i = issue("Bug");
    i.milestone = Some(MilestoneRef::Title("v1".to_string()));
    let issues = vec![i, issue("Other")];
    match validate_issues("test.yaml", &issues, Some("https://github.com/octo/denied.git"), Some("work")).unwrap() {
        ValidatePlan::CheckRepo { output, owner, repo, account, titles } => {
            assert_eq!(owner, "octo");
            assert_eq!(repo, "denied");
            assert_eq!(account, "work");
            assert_eq!(titles, vec!["v1".to_string()]);
            assert_eq!(text(&output, "targetRepo"), Some("octo/denied"));
            let mut output = output;
            validate::mark_repo_checked(&mut output);
            assert!(output.get("repoChecked").is_some());
        }
        ValidatePlan::Done(_) => panic!("a repository and an account ask for a check"),
    }
    match validate_issues("test.yaml", &issues, Some("octo/denied"), None).unwrap() {
        ValidatePlan::Done(out) => assert_eq!(text(&out, "targetRepo"), Some("octo/denied")),
        ValidatePlan::CheckRepo { .. } => panic!("no account, no check"),
    }
    let e = validate_issues("test.yaml", &issues, Some("nope"), Some("work")).unwrap_err();
    assert_eq!(
        e.message,
        "Invalid repository format 'nope'. Expected 'owner/repo' or 'https://github.com/owner/repo'."
    );
    let e = validate_issues("empty.yaml", &Vec::new(), None, None).unwrap_err();
    assert_eq!(e.message, "No issues found in 'empty.yaml'.");
    let e = validate_issues("x.yaml", &vec![issue("a"), issue("  ")], None, None).unwrap_err();
    assert_eq!(e.message, "Issue #2 is missing a required 'title'.");
}

#[test]
fn validate_batch_checks_sources() {
    let batch = BatchConfig {
        inbox: Some("inbox".to_string()),
        target_repo: None,
        sources: vec![SourceConfig { repo: "octo/src".to_string(), filter: String::new() }],
        issues: Vec::new(),
    };
    match validate_batch("config.yaml", &batch, None, None).unwrap() {
        ValidatePlan::Done(out) => {
            assert_eq!(out.u64_field("sourcesCount"), Some(1));
            assert_eq!(text(&out, "inbox"), Some("inbox"));
        }
        ValidatePlan::CheckRepo { .. } => panic!("no issues, no check"),
    }
    let bad = BatchConfig {
        inbox: None,
        target_repo: None,
        sources: vec![SourceConfig { repo: "bad".to_string(), filter: String::new() }],
        issues: Vec::new(),
    };
    assert_eq!(validate_batch("config.yaml", &bad, None, None).unwrap_err().code, ErrorCode::InvalidInput);
    assert_eq!(input_path(&validate_args(None, None)).unwrap(), "issues.yaml");
    let none = ValidateArgs { path: None, file: None, repo: None, account: None };
    assert_eq!(input_path(&none).unwrap_err().code, ErrorCode::InvalidInput);
}

#[test]
fn import_issues_idempotency() {
    let mut item = issue("Bug: login button broken");
    item.body = Some("Details here".to_string());
    item.labels = Some(vec!["bug".to_string()]);
    let mut log = ImportLog::empty("custom-log.json".to_string());

    // Dry run
    let mut run_ = RepoImport::new("octo/test-repo", vec![item.clone()], true, false, "custom-log.json".to_string()).unwrap();
    let report = finished(run_.start(&log));
    assert_eq!(report.u64_field("planned"), Some(1));
    assert_eq!(report.u64_field("imported"), Some(0));
    assert_eq!(log.count(), 0);

    // Real import
    let mut run_ = RepoImport::new("octo/test-repo", vec![item.clone()], false, false, "custom-log.json".to_string()).unwrap();
    let payload = match run_.start(&log) {
        RepoAction::CreateIssue(p) => p,
        _ => panic!("a real run creates the issue"),
    };
    assert_eq!(text(&payload, "title"), Some("Bug: login button broken"));
    assert_eq!(text(&payload, "body"), Some("Details here"));
    let response = obj(vec![
        ("number", Json::UInt(101)),
        ("title", s("Bug: login button broken")),
        ("html_url", s("https://github.com/octo/test-repo/issues/101")),
    ]);
    let report = finished(run_.on_created(&response, &mut log, "2024-01-01T00:00:00Z"));
    assert_eq!(report.u64_field("imported"), Some(1));
    assert_eq!(report.u64_field("skipped"), Some(0));
    let items = report.get("items").unwrap().as_array().unwrap();
    assert_eq!(items[0].u64_field("number"), Some(101));
    assert!(log.is_imported("octo/test-repo#Bug: login button broken"));

    // Idempotent re-run skips
    let mut run_ = RepoImport::new("octo/test-repo", vec![item], false, false, "custom-log.json".to_string()).unwrap();
    let report = finished(run_.start(&log));
    assert_eq!(report.u64_field("imported"), Some(0));
    assert_eq!(report.u64_field("skipped"), Some(1));
    let items = report.get("items").unwrap().as_array().unwrap();
    assert_eq!(text(&items[0], "status"), Some("already_imported"));
}

#[test]
fn milestone_titles_are_looked_up() {
    let mut item = issue("Bug");
    item.milestone = Some(MilestoneRef::Title("V1".to_string()));
    let log = ImportLog::empty("log.json".to_string());
    let mut run_ = RepoImport::new("octo/r", vec![item], false, false, "log.json".to_string()).unwrap();
    match run_.start(&log) {
        RepoAction::ListMilestones => {}
        _ => panic!("a milestone title needs the listing"),
    }
    let listing = Json::Array(vec![
        obj(vec![("title", s("v0")), ("number", Json::UInt(1))]),
        obj(vec![("title", s("v1")), ("number", Json::UInt(2))]),
    ]);
    match run_.on_milestones(&listing, &log).unwrap() {
        RepoAction::CreateIssue(p) => assert_eq!(p.u64_field("milestone"), Some(2)),
        _ => panic!("the issue is created with the milestone found"),
    }
    let mut item = issue("Bug");
    item.milestone = Some(MilestoneRef::Title("v9".to_string()));
    let mut run_ = RepoImport::new("octo/r", vec![item], false, false, "log.json".to_string()).unwrap();
    let _ = run_.start(&log);
    let e = run_.on_milestones(&listing, &log).unwrap_err();
    assert_eq!(e.message, "Milestone 'v9' was not found in repository 'octo/r'.");
}

#[test]
fn existing_titles_are_skipped_on_request() {
    let log = ImportLog::empty("log.json".to_string());
    let mut run_ = RepoImport::new("octo/r", vec![issue("Known Bug"), issue("  ")], false, true, "log.json".to_string()).unwrap();
    assert!(run_.skips_existing());
    let listing = Json::Array(vec![obj(vec![("title", s("known bug"))])]);
    assert_eq!(titles_of_listing(&listing), vec!["known bug".to_string()]);
    let accented = Json::Array(vec![obj(vec![("title", s(" ÉCLAIR Bug "))]), obj(vec![("number", Json::UInt(1))])]);
    assert_eq!(titles_of_listing(&accented), vec!["éclair bug".to_string()]);
    run_.set_existing(&listing);
    let report = finished(run_.start(&log));
    assert_eq!(report.u64_field("skipped"), Some(1));
    assert_eq!(report.u64_field("total"), Some(2));
    assert_eq!(run_.owner(), "octo");
    assert_eq!(run_.repo(), "r");
}

#[test]
fn issue_keys() {
    let mut i = issue("  Title  ");
    assert_eq!(issue_key_of("o", "r", &i), "o/r#Title");
    i.id = Some("ext-1".to_string());
    assert_eq!(issue_key_of("o", "r", &i), "o/r#ext-1");
}

#[test]
fn parse_repo_accepts_the_documented_forms() {
    let ok = |s: &str| parse_repo(s).unwrap();
    assert_eq!(ok("owner/repo"), ("owner".to_string(), "repo".to_string()));
    assert_eq!(ok("https://github.com/owner/repo"), ("owner".to_string(), "repo".to_string()));
    assert_eq!(ok("http://github.com/owner/repo/"), ("owner".to_string(), "repo".to_string()));
    assert_eq!(ok("git@github.com:owner/repo.git"), ("owner".to_string(), "repo".to_string()));
    assert_eq!(ok("  owner/repo.git.git  "), ("owner".to_string(), "repo".to_string()));
    assert_eq!(ok(" git@github.com:my-org/my_repo.v2.git "), ("my-org".to_string(), "my_repo.v2".to_string()));
    for bad in ["", "owner", "owner/", "/repo", "a/b/c", "https://github.com/owner"] {
        let e = parse_repo(bad).unwrap_err();
        assert_eq!(e.code, ErrorCode::InvalidInput);
        assert!(e.message.starts_with("Invalid repository format '"));
    }
    let bad = parse_repo("RepoTarget").unwrap_err();
    assert_eq!(bad.envelope().get("code").and_then(|c| c.as_str()).map(|c| c.as_str()), Some("invalid_input"));
}

#[test]
fn milestones_resolve_by_number_or_title() {
    let listing = Json::Array(vec![
        obj(vec![("title", s("Sprint 1"))]),
        obj(vec![("title", s("sprint 1")), ("number", Json::UInt(7))]),
    ]);
    assert_eq!(find_milestone(&listing, "o", "r", "SPRINT 1").unwrap(), 7);
    assert_eq!(resolve_milestone("o", "r", &MilestoneRef::Number(3), &Json::Null).unwrap(), Some(3));
    assert_eq!(
        resolve_milestone("o", "r", &MilestoneRef::Title("Sprint 1".to_string()), &listing).unwrap(),
        Some(7)
    );
    let e = find_milestone(&Json::Null, "o", "r", "x").unwrap_err();
    assert_eq!(e.message, "Milestone 'x' was not found in repository 'o/r'.");
}

#[test]
fn import_log_reads_lists_and_maps() {
    let log = ImportLog::open(
        "import-log.json".to_string(),
        Some(r#"["o/r#a", "o/r#b", "o/r#a"]"#.to_string()),
        None,
    );
    assert_eq!(log.count(), 2);
    assert!(log.is_imported("o/r#b"));
    assert!(!log.is_imported("o/r#c"));
    assert_eq!(log.path(), "import-log.json");

    let entries = vec![("o/r#x".to_string(), obj(vec![("key", s("o/r#x"))]))];
    let log = ImportLog::open("l.json".to_string(), Some(r#"{"o/r#x":{"key":"o/r#x"}}"#.to_string()), Some(entries));
    assert!(log.is_imported("o/r#x"));
    assert_eq!(log.entries().len(), 1);

    let log = ImportLog::open("l.json".to_string(), None, None);
    assert_eq!(log.count(), 0);
    let mut log = ImportLog::open("l.json".to_string(), Some("garbage".to_string()), None);
    assert_eq!(log.count(), 0);
    log.mark_imported("o/r#1", Some(1), Some("u"), "now");
    log.mark_imported("o/r#1", None, None, "later");
    assert_eq!(log.count(), 1);
    let entry = &log.entries()[0].1;
    assert_eq!(text(entry, "importedAt"), Some("later"));
    assert!(entry.get("number").is_none());
}

#[test]
fn input_is_classified() {
    let list = vec![issue("a")];
    match classify_input("f", "  \n", None, None, None, None).unwrap() {
        ParsedInput::Issues(v) => assert!(v.is_empty()),
        _ => panic!("a blank file holds no issues"),
    }
    match classify_input("f", "x", Some(list.clone()), None, None, None).unwrap() {
        ParsedInput::Issues(v) => assert_eq!(v.len(), 1),
        _ => panic!("a list is issues"),
    }
    let batch = BatchConfig { inbox: None, target_repo: Some("o/r".to_string()), sources: vec![], issues: list.clone() };
    match classify_input("f", "x", None, Some((batch, true)), None, None).unwrap() {
        ParsedInput::Issues(v) => assert_eq!(v.len(), 1),
        _ => panic!("an object with issues only is issues"),
    }
    let batch = BatchConfig { inbox: Some("in".to_string()), target_repo: None, sources: vec![], issues: vec![] };
    match classify_input("f", "x", None, None, None, Some((batch, false))).unwrap() {
        ParsedInput::Batch(b) => assert_eq!(b.inbox.as_deref(), Some("in")),
        _ => panic!("an object with an inbox is a batch"),
    }
    let empty = BatchConfig { inbox: None, target_repo: None, sources: vec![], issues: vec![] };
    match classify_input("f", "issues: []\n", None, Some((empty.clone(), true)), None, Some((empty.clone(), true))).unwrap() {
        ParsedInput::Issues(v) => assert!(v.is_empty()),
        _ => panic!("an object with an empty issues list holds no issues"),
    }
    let e = classify_input("f.yaml", "foo: bar\n", None, Some((empty.clone(), false)), None, None).unwrap_err();
    assert_eq!(e.code, ErrorCode::InvalidInput);
    let e = classify_input("f.json", "{}", None, Some((empty.clone(), false)), None, Some((empty, false))).unwrap_err();
    assert_eq!(e.code, ErrorCode::InvalidInput);
    let e = classify_input("f.yaml", "x", None, None, None, None).unwrap_err();
    assert_eq!(
        e.message,
        "File 'f.yaml' is not valid YAML or JSON issues file. Expected an array of issues or an object with 'issues' or 'sources'."
    );
    assert_eq!(read_failure("a", "gone").message, "Could not read file 'a': gone");
}

#[test]
fn import_mode_follows_the_input() {
    match run(&import_args(Some("o/r")), ParsedInput::Issues(vec![issue("a")])).unwrap() {
        ImportMode::ToRepo { issues, target } => {
            assert_eq!(issues.len(), 1);
            assert_eq!(target, "o/r");
        }
        _ => panic!("issues with a repository go to it"),
    }
    let e = run(&import_args(None), ParsedInput::Issues(vec![])).unwrap_err();
    assert_eq!(e.message, "A target GitHub repository is required. Pass --repo <owner/repo>.");
    let src = SourceConfig { repo: "o/s".to_string(), filter: String::new() };
    let batch = BatchConfig { inbox: Some("in".to_string()), target_repo: None, sources: vec![src.clone()], issues: vec![] };
    match run(&import_args(None), ParsedInput::Batch(batch.clone())).unwrap() {
        ImportMode::ToInbox { inbox, sources } => {
            assert_eq!(inbox, "in");
            assert_eq!(sources.len(), 1);
        }
        _ => panic!("a batch without a target goes to its inbox"),
    }
    match run(&import_args(Some("o/t")), ParsedInput::Batch(batch)).unwrap() {
        ImportMode::ToRepoWithSources { target, .. } => assert_eq!(target, "o/t"),
        _ => panic!("a batch with sources and a target pulls into it"),
    }
    let empty = BatchConfig { inbox: None, target_repo: None, sources: vec![], issues: vec![] };
    assert_eq!(run(&import_args(None), ParsedInput::Batch(empty)).unwrap_err().code, ErrorCode::InvalidInput);
}

#[test]
fn input_path_resolution() {
    let mut a = import_args(None);
    assert_eq!(explicit_input(&a), None);
    a.config = Some("c.yaml".to_string());
    a.path = Some("p.yaml".to_string());
    assert_eq!(explicit_input(&a).as_deref(), Some("p.yaml"));
    a.file = Some("f.yaml".to_string());
    assert_eq!(explicit_input(&a).as_deref(), Some("f.yaml"));

    assert_eq!(resolve_input_path(Some("f.yaml"), true, "/d/c.yaml", true, true).unwrap(), "f.yaml");
    assert_eq!(resolve_input_path(Some("f.yaml"), false, "/d/c.yaml", true, true).unwrap_err().message, "File 'f.yaml' not found.");
    assert_eq!(resolve_input_path(None, false, "/d/c.yaml", true, true).unwrap(), "/d/c.yaml");
    assert_eq!(resolve_input_path(None, false, "/d/c.yaml", false, true).unwrap(), "config.yaml");
    assert_eq!(resolve_input_path(None, false, "/d/c.yaml", false, false).unwrap_err().code, ErrorCode::InvalidInput);
}

#[test]
fn sources_search_their_repository() {
    let (o, n, q) = source_query(&SourceConfig { repo: "octo/src".to_string(), filter: " ".to_string() }).unwrap();
    assert_eq!((o.as_str(), n.as_str()), ("octo", "src"));
    assert_eq!(q, "repo:octo/src is:issue state:open");
    let (_, _, q) = source_query(&SourceConfig { repo: "octo/src".to_string(), filter: "label:bug".to_string() }).unwrap();
    assert_eq!(q, "repo:octo/src is:issue label:bug");
    assert!(source_query(&SourceConfig { repo: "x".to_string(), filter: String::new() }).is_err());

    let result = obj(vec![(
        "items",
        Json::Array(vec![obj(vec![
            ("number", Json::UInt(5)),
            ("title", s("Found")),
            ("body", s("B")),
            ("labels", Json::Array(vec![obj(vec![("name", s("bug"))]), obj(vec![])])),
        ])]),
    )]);
    let found = issues_from_search("octo", "src", &result);
    assert_eq!(found.len(), 1);
    assert_eq!(found[0].title, "Found");
    assert_eq!(found[0].id.as_deref(), Some("octo/src#5"));
    assert_eq!(found[0].labels, Some(vec!["bug".to_string()]));
    assert!(issues_from_search("o", "r", &Json::Null).is_empty());
}

#[test]
fn inbox_import_writes_notes_once() {
    let sources = vec![SourceConfig { repo: "octo/src".to_string(), filter: String::new() }];
    let mut log = ImportLog::empty("log.json".to_string());
    let result = obj(vec![(
        "items",
        Json::Array(vec![obj(vec![
            ("number", Json::UInt(5)),
            ("title", s("Found")),
            ("html_url", s("https://github.com/octo/src/issues/5")),
        ])]),
    )]);

    let mut inbox = InboxImport::new("inbox".to_string(), sources.clone(), false, "log.json".to_string());
    match inbox.start(&log).unwrap() {
        InboxAction::Search(q) => assert_eq!(q, "repo:octo/src is:issue state:open"),
        _ => panic!("the first step is the search"),
    }
    match inbox.on_search(&result, &log).unwrap() {
        InboxAction::WriteNote { file_name, contents } => {
            assert_eq!(file_name, "issue-5.md");
            assert_eq!(contents, "https://github.com/octo/src/issues/5\n");
        }
        _ => panic!("a found issue is written"),
    }
    match inbox.on_written(&mut log, "now").unwrap() {
        InboxAction::Finish(r) => assert_eq!(r.u64_field("imported"), Some(1)),
        _ => panic!("one source, one issue"),
    }
    assert!(log.is_imported("octo/src#5"));

    let mut again = InboxImport::new("inbox".to_string(), sources.clone(), false, "log.json".to_string());
    let _ = again.start(&log).unwrap();
    match again.on_search(&result, &log).unwrap() {
        InboxAction::Finish(r) => assert_eq!(r.u64_field("skipped"), Some(1)),
        _ => panic!("an imported issue is skipped"),
    }

    let empty_log = ImportLog::empty("log.json".to_string());
    let mut dry = InboxImport::new("inbox".to_string(), sources, true, "log.json".to_string());
    let _ = dry.start(&empty_log).unwrap();
    match dry.on_search(&result, &empty_log).unwrap() {
        InboxAction::Finish(r) => {
            assert_eq!(r.u64_field("imported"), Some(1));
            let items = r.get("items").unwrap().as_array().unwrap();
            assert_eq!(text(&items[0], "status"), Some("planned"));
        }
        _ => panic!("a dry run writes nothing"),
    }
}

#[test]
fn a_finished_run_logs_every_titled_issue_and_a_rerun_skips_them() {
    let mut log = ImportLog::empty("log.json".to_string());
    let issues = vec![issue("One"), issue("   "), issue("Two")];
    let mut job = RepoImport::new("o/r", issues.clone(), false, false, "log.json".to_string()).unwrap();
    let mut action = job.start(&log);
    let mut n = 0u64;
    let report = loop {
        action = match action {
            RepoAction::CreateIssue(_) => {
                n += 1;
                let created = obj(vec![("number", Json::UInt(n)), ("html_url", s("u"))]);
                job.on_created(&created, &mut log, "now")
            }
            RepoAction::Finish(r) => break r,
            RepoAction::ListMilestones => panic!("no milestones here"),
        };
    };
    assert_eq!(report.u64_field("imported"), Some(2));
    assert_eq!(report.u64_field("total"), Some(3));
    assert_eq!(log.count(), 2);
    assert!(log.is_imported("o/r#One") && log.is_imported("o/r#Two"));

    let mut again = RepoImport::new("o/r", issues, false, false, "log.json".to_string()).unwrap();
    let report = finished(again.start(&log));
    assert_eq!(report.u64_field("skipped"), Some(2));
    assert_eq!(report.u64_field("imported"), Some(0));
    let items = report.get("items").unwrap().as_array().unwrap();
    assert_eq!(items.len(), 2);
    assert!(items.iter().all(|i| text(i, "status") == Some("already_imported")));
}

#[test]
fn import_log_keeps_keys_in_order_and_counts_new_keys() {
    let mut log = ImportLog::empty("l.json".to_string());
    log.mark_imported("o/r#b", None, None, "t");
    log.mark_imported("o/r#a", Some(1), None, "t");
    log.mark_imported("o/r#c", None, Some("u"), "t");
    assert_eq!(log.count(), 3);
    log.mark_imported("o/r#a", None, None, "t2");
    assert_eq!(log.count(), 3);
    let keys: Vec<&str> = log.entries().iter().map(|(k, _)| k.as_str()).collect();
    assert_eq!(keys, vec!["o/r#a", "o/r#b", "o/r#c"]);
}
