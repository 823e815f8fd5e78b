//! `validate`: checks the syntax and required fields of an issues file, and, given a
//! repository and an account, that the repository and the named milestones exist.
use vstd::prelude::*;

use crate::cli::ValidateArgs;
use crate::error::{Error, ErrorCode, ErrorV, err};
use crate::importer::{
    BatchConfig, IssueItem, MilestoneRef, ParsedInput, SourceConfig, bad_repo_message, parse_repo,
    spec_parse_repo,
};
use crate::json::{
    Json, JsonV, json_fields_view, json_seq_view, lemma_fields_view, lemma_seq_view, jstr_of,
    spec_set_field,
};
use crate::text::{concat, concat3, decimal, decimal_string, is_blank, is_blank_str, owned, push_str};

verus! {

/// What is left to do once the file itself is valid.
#[derive(Debug)]
pub enum ValidatePlan {
    /// Nothing: print this output.
    Done(Json),
    /// Check that `owner/repo` is reachable with `account`, and that each milestone title in
    /// `titles` exists there; then mark the output as checked and print it.
    CheckRepo { output: Json, owner: String, repo: String, account: String, titles: Vec<String> },
}

/// The mathematical value of a [`ValidatePlan`].
pub enum ValidatePlanV {
    Done(JsonV),
    CheckRepo {
        output: JsonV,
        owner: Seq<char>,
        repo: Seq<char>,
        account: Seq<char>,
        titles: Seq<Seq<char>>,
    },
}

impl View for ValidatePlan {
    type V = ValidatePlanV;

    open spec fn view(&self) -> ValidatePlanV {
        match self {
            ValidatePlan::Done(j) => ValidatePlanV::Done(j@),
            ValidatePlan::CheckRepo { output, owner, repo, account, titles } =>
                ValidatePlanV::CheckRepo {
                output: output@,
                owner: owner@,
                repo: repo@,
                account: account@,
                titles: titles.deep_view(),
            },
        }
    }
}

/// A milestone reference as the report shows it.
pub open spec fn milestone_v(m: Option<MilestoneRef>) -> JsonV {
    match m {
        Some(MilestoneRef::Number(n)) => JsonV::UInt(n),
        Some(MilestoneRef::Title(t)) => JsonV::Str(t@),
        None => JsonV::Null,
    }
}

/// The length of an optional list, 0 when absent.
pub open spec fn opt_len(v: Option<Vec<String>>) -> nat {
    match v {
        Some(l) => l@.len(),
        None => 0,
    }
}

/// The report line for issue `i` (counted from 1 in the report).
pub open spec fn validated_item(i: int, issue: IssueItem) -> JsonV {
    JsonV::Object(
        seq![
            ("index"@, JsonV::UInt((i + 1) as u64)),
            ("title"@, JsonV::Str(issue.title@)),
            ("hasBody"@, JsonV::Bool(issue.body is Some)),
            ("labelsCount"@, JsonV::UInt(opt_len(issue.labels) as u64)),
            ("assigneesCount"@, JsonV::UInt(opt_len(issue.assignees) as u64)),
            ("milestone"@, milestone_v(issue.milestone)),
        ],
    )
}

/// The first issue whose title is blank.
pub open spec fn first_untitled(issues: Seq<IssueItem>) -> Option<int>
    decreases issues.len(),
{
    if issues.len() == 0 {
        None
    } else if is_blank(issues[0].title@) {
        Some(0)
    } else {
        match first_untitled(issues.drop_first()) {
            Some(i) => Some(i + 1),
            None => None,
        }
    }
}

/// The titles of the milestones named by title, in issue order.
pub open spec fn milestone_titles(issues: Seq<IssueItem>) -> Seq<Seq<char>>
    decreases issues.len(),
{
    if issues.len() == 0 {
        Seq::empty()
    } else {
        let init = milestone_titles(issues.drop_last());
        match issues.last().milestone {
            Some(MilestoneRef::Title(t)) => init.push(t@),
            _ => init,
        }
    }
}

/// The report on a valid list of issues.
pub open spec fn issues_report(file: Seq<char>, issues: Seq<IssueItem>) -> Seq<(Seq<char>, JsonV)> {
    seq![
        ("status"@, JsonV::Str("valid"@)),
        ("file"@, JsonV::Str(file)),
        ("issuesCount"@, JsonV::UInt(issues.len() as u64)),
        ("issues"@, JsonV::Array(Seq::new(issues.len(), |i: int| validated_item(i, issues[i])))),
    ]
}

/// Validating a list of issues from `file`, with the repository and account asked for.
pub open spec fn spec_validate_issues(
    file: Seq<char>,
    issues: Seq<IssueItem>,
    repo: Option<Seq<char>>,
    account: Option<Seq<char>>,
) -> Result<ValidatePlanV, ErrorV> {
    if issues.len() == 0 {
        Err(err(ErrorCode::InvalidInput, "No issues found in '"@ + file + "'."@))
    } else if first_untitled(issues) is Some {
        Err(
            err(
                ErrorCode::InvalidInput,
                "Issue #"@ + decimal((first_untitled(issues)->0 + 1) as nat)
                    + " is missing a required 'title'."@,
            ),
        )
    } else {
        let base = issues_report(file, issues);
        match repo {
            None => Ok(ValidatePlanV::Done(JsonV::Object(base))),
            Some(r) => match spec_parse_repo(r) {
                None => Err(err(ErrorCode::InvalidInput, bad_repo_message(r))),
                Some((o, n)) => {
                    let out = JsonV::Object(base.push(("targetRepo"@, JsonV::Str(o + "/"@ + n))));
                    match account {
                        None => Ok(ValidatePlanV::Done(out)),
                        Some(a) => Ok(
                            ValidatePlanV::CheckRepo {
                                output: out,
                                owner: o,
                                repo: n,
                                account: a,
                                titles: milestone_titles(issues),
                            },
                        ),
                    }
                },
            },
        }
    }
}

fn milestone_json(m: &Option<MilestoneRef>) -> (r: Json)
    ensures
        r@ == milestone_v(*m),
{
    match m {
        Some(MilestoneRef::Number(n)) => Json::UInt(*n),
        Some(MilestoneRef::Title(t)) => Json::Str(t.clone()),
        None => Json::Null,
    }
}

fn opt_len_of(v: &Option<Vec<String>>) -> (r: u64)
    ensures
        r == opt_len(*v),
{
    match v {
        Some(l) => l.len() as u64,
        None => 0,
    }
}

fn field(k: &str, v: Json) -> (r: (String, Json))
    ensures
        r.0@ == k@,
        r.1 == v,
{
    (owned(k), v)
}

fn item_json(i: usize, issue: &IssueItem) -> (r: Json)
    requires
        i < usize::MAX,
    ensures
        r@ == validated_item(i as int, *issue),
{
    let mut f: Vec<(String, Json)> = Vec::new();
    f.push(field("index", Json::UInt((i + 1) as u64)));
    f.push(field("title", Json::Str(issue.title.clone())));
    f.push(field("hasBody", Json::Bool(issue.body.is_some())));
    f.push(field("labelsCount", Json::UInt(opt_len_of(&issue.labels))));
    f.push(field("assigneesCount", Json::UInt(opt_len_of(&issue.assignees))));
    f.push(field("milestone", milestone_json(&issue.milestone)));
    proof {
        lemma_fields_view(f@);
        assert(json_fields_view(f@) =~= match validated_item(i as int, *issue) {
            JsonV::Object(x) => x,
            _ => Seq::empty(),
        });
    }
    Json::Object(f)
}

fn titles_of(issues: &Vec<IssueItem>) -> (r: Vec<String>)
    ensures
        r.deep_view() == milestone_titles(issues@),
{
    let mut r: Vec<String> = Vec::new();
    let mut i: usize = 0;
    while i < issues.len()
        invariant
            i <= issues.len(),
            r.deep_view() == milestone_titles(issues@.take(i as int)),
        decreases issues.len() - i,
    {
        assert(issues@.take(i + 1).drop_last() == issues@.take(i as int));
        match &issues[i].milestone {
            Some(MilestoneRef::Title(t)) => {
                r.push(t.clone());
            },
            _ => {},
        }
        assert(r.deep_view() =~= milestone_titles(issues@.take(i + 1)));
        i = i + 1;
    }
    assert(issues@.take(issues.len() as int) == issues@);
    r
}

/// Validates a list of issues read from `file`; a repository check follows when `repo` and
/// `account` are both given.
pub fn validate_issues(
    file: &str,
    issues: &Vec<IssueItem>,
    repo: Option<&str>,
    account: Option<&str>,
) -> (r: Result<ValidatePlan, Error>)
    ensures
        match spec_validate_issues(
            file@,
            issues@,
            crate::account::oview(repo),
            crate::account::oview(account),
        ) {
            Ok(p) => r is Ok && r->Ok_0@ == p,
            Err(e) => r is Err && r->Err_0@ == e,
        },
{
    if issues.len() == 0 {
        return Err(Error::invalid(concat3("No issues found in '", file, "'.")));
    }
    let mut items: Vec<Json> = Vec::new();
    let mut i: usize = 0;
    assert(issues@.skip(0) == issues@);
    while i < issues.len()
        invariant
            i <= issues.len(),
            items@.len() == i,
            forall|k: int|
                0 <= k < i ==> crate::json::json_view(#[trigger] items@[k]) == validated_item(
                    k,
                    issues@[k],
                ),
            forall|k: int| 0 <= k < i ==> !is_blank(#[trigger] issues@[k].title@),
            match first_untitled(issues@) {
                Some(j) => match first_untitled(issues@.skip(i as int)) {
                    Some(m) => j == m + i,
                    None => false,
                },
                None => first_untitled(issues@.skip(i as int)) is None,
            },
        decreases issues.len() - i,
    {
        let ghost rest = issues@.skip(i as int);
        assert(rest[0] == issues@[i as int]);
        assert(rest.drop_first() == issues@.skip(i + 1));
        if is_blank_str(issues[i].title.as_str()) {
            let mut msg = concat("Issue #", decimal_string((i + 1) as u64).as_str());
            push_str(&mut msg, " is missing a required 'title'.");
            return Err(Error::invalid(msg));
        }
        items.push(item_json(i, &issues[i]));
        i = i + 1;
    }
    let mut base: Vec<(String, Json)> = Vec::new();
    base.push(field("status", jstr_of("valid")));
    base.push(field("file", jstr_of(file)));
    base.push(field("issuesCount", Json::UInt(issues.len() as u64)));
    proof {
        lemma_seq_view(items@);
        assert(json_seq_view(items@) =~= Seq::new(
            issues@.len(),
            |k: int| validated_item(k, issues@[k]),
        ));
    }
    base.push(field("issues", Json::Array(items)));
    proof {
        lemma_fields_view(base@);
        assert(json_fields_view(base@) =~= issues_report(file@, issues@));
    }
    match repo {
        None => Ok(ValidatePlan::Done(Json::Object(base))),
        Some(r) => {
            let (owner, name) = match parse_repo(r) {
                Ok(x) => x,
                Err(e) => {
                    return Err(e);
                },
            };
            let target = concat3(owner.as_str(), "/", name.as_str());
            let ghost before = base@;
            base.push(field("targetRepo", Json::Str(target)));
            proof {
                lemma_fields_view(base@);
                lemma_fields_view(before);
                assert(json_fields_view(base@) =~= issues_report(file@, issues@).push(
                    ("targetRepo"@, JsonV::Str(owner@ + "/"@ + name@)),
                ));
            }
            match account {
                None => Ok(ValidatePlan::Done(Json::Object(base))),
                Some(a) => Ok(
                    ValidatePlan::CheckRepo {
                        output: Json::Object(base),
                        owner,
                        repo: name,
                        account: owned(a),
                        titles: titles_of(issues),
                    },
                ),
            }
        },
    }
}

/// Validating without an account never needs the network: the plan is done.
pub proof fn law_validate_offline_without_account(
    file: Seq<char>,
    issues: Seq<IssueItem>,
    repo: Option<Seq<char>>,
)
    ensures
        spec_validate_issues(file, issues, repo, None) matches Ok(p) ==> p is Done,
{
}

/// Validating only reads: whatever the file holds, the plan is either done, or a check of a
/// repository that the command line (or the batch file) names, with the account the command
/// line names, for milestone titles that the file's issues name. Without an account it is
/// always done. Nothing in a plan asks to write anything.
pub proof fn law_validate_reads_only(
    file: Seq<char>,
    parsed: ParsedInput,
    repo: Option<Seq<char>>,
    account: Option<Seq<char>>,
)
    ensures
        account is None ==> (spec_run(file, parsed, repo, account) matches Ok(p) ==> p is Done),
        spec_run(file, parsed, repo, account) matches Ok(ValidatePlanV::CheckRepo { owner, repo: n, account: a, titles, .. })
            ==> account == Some(a) && (exists|t: Seq<char>|
            #[trigger] spec_parse_repo(t) == Some((owner, n))) && titles == milestone_titles(
            match parsed {
                ParsedInput::Issues(v) => v@,
                ParsedInput::Batch(b) => b.issues@,
            },
        ),
{
    match parsed {
        ParsedInput::Issues(v) => {
            if let Some(r) = repo {
                if spec_parse_repo(r) is Some {
                    assert(spec_parse_repo(r) == Some(spec_parse_repo(r)->0));
                }
            }
        },
        ParsedInput::Batch(b) => {
            let target = match repo {
                Some(r) => Some(r),
                None => ostr(b.target_repo),
            };
            if let Some(r) = target {
                if spec_parse_repo(r) is Some {
                    assert(spec_parse_repo(r) == Some(spec_parse_repo(r)->0));
                }
            }
        },
    }
}

/// Marks a report as checked against the repository.
pub fn mark_repo_checked(output: &mut Json)
    ensures
        final(output)@ == spec_set_field(old(output)@, "repoChecked"@, JsonV::Bool(true)),
{
    output.set_field("repoChecked", Json::Bool(true));
}

/// The report line for a source that names `owner/repo`.
pub open spec fn source_item(o: Seq<char>, n: Seq<char>, filter: Seq<char>) -> JsonV {
    JsonV::Object(seq![("source"@, JsonV::Str(o + "/"@ + n)), ("filter"@, JsonV::Str(filter))])
}

/// The error for the source at position `i`, if it lacks a repository or names none.
pub open spec fn source_error(i: int, s: SourceConfig) -> Option<ErrorV> {
    if is_blank(s.repo@) {
        Some(
            err(
                ErrorCode::InvalidInput,
                "Source #"@ + decimal((i + 1) as nat) + " is missing a required 'repo'."@,
            ),
        )
    } else if spec_parse_repo(s.repo@) is None {
        Some(err(ErrorCode::InvalidInput, bad_repo_message(s.repo@)))
    } else {
        None
    }
}

/// The first source error, in source order, counting positions from `base`.
pub open spec fn first_source_error(sources: Seq<SourceConfig>, base: int) -> Option<ErrorV>
    decreases sources.len(),
{
    if sources.len() == 0 {
        None
    } else {
        match source_error(base, sources[0]) {
            Some(e) => Some(e),
            None => first_source_error(sources.drop_first(), base + 1),
        }
    }
}

/// The report line for a valid source.
pub open spec fn valid_source_item(s: SourceConfig) -> JsonV {
    let (o, n) = spec_parse_repo(s.repo@)->0;
    source_item(o, n, s.filter@)
}

/// The view of an optional string.
pub open spec fn ostr(o: Option<String>) -> Option<Seq<char>> {
    crate::error::ostr(o)
}

/// Validating a batch configuration from `file`: its sources, then its issues if it has any.
pub open spec fn spec_validate_batch(
    file: Seq<char>,
    batch: BatchConfig,
    repo: Option<Seq<char>>,
    account: Option<Seq<char>>,
) -> Result<ValidatePlanV, ErrorV> {
    match first_source_error(batch.sources@, 0) {
        Some(e) => Err(e),
        None => {
            let target = match repo {
                Some(r) => Some(r),
                None => ostr(batch.target_repo),
            };
            if batch.issues.len() > 0 {
                spec_validate_issues(file, batch.issues@, target, account)
            } else {
                Ok(
                    ValidatePlanV::Done(
                        JsonV::Object(
                            seq![
                                ("status"@, JsonV::Str("valid"@)),
                                ("file"@, JsonV::Str(file)),
                                ("sourcesCount"@, JsonV::UInt(batch.sources.len() as u64)),
                                ("issuesCount"@, JsonV::UInt(0)),
                                ("inbox"@, JsonV::Str(crate::json::or_empty(ostr(batch.inbox)))),
                                ("targetRepo"@, JsonV::Str(crate::json::or_empty(target))),
                                (
                                    "sources"@,
                                    JsonV::Array(
                                        Seq::new(
                                            batch.sources@.len(),
                                            |i: int| valid_source_item(batch.sources@[i]),
                                        ),
                                    ),
                                ),
                            ],
                        ),
                    ),
                )
            }
        },
    }
}

fn or_empty_str(o: Option<&str>) -> (r: String)
    ensures
        r@ == crate::json::or_empty(crate::account::oview(o)),
{
    match o {
        Some(s) => owned(s),
        None => String::new(),
    }
}

/// Validates a batch configuration read from `file`.
#[verifier::loop_isolation(false)]
pub fn validate_batch(file: &str, batch: &BatchConfig, repo: Option<&str>, account: Option<&str>) -> (r:
    Result<ValidatePlan, Error>)
    ensures
        match spec_validate_batch(
            file@,
            *batch,
            crate::account::oview(repo),
            crate::account::oview(account),
        ) {
            Ok(p) => r is Ok && r->Ok_0@ == p,
            Err(e) => r is Err && r->Err_0@ == e,
        },
{
    let sources = &batch.sources;
    let mut items: Vec<Json> = Vec::new();
    let mut i: usize = 0;
    assert(sources@.skip(0) == sources@);
    while i < sources.len()
        invariant
            i <= sources.len(),
            items@.len() == i,
            forall|k: int|
                0 <= k < i ==> crate::json::json_view(#[trigger] items@[k]) == valid_source_item(
                    sources@[k],
                ),
            forall|k: int| 0 <= k < i ==> source_error(k, #[trigger] sources@[k]) is None,
            first_source_error(sources@, 0) == first_source_error(sources@.skip(i as int), i as int),
        decreases sources.len() - i,
    {
        let ghost rest = sources@.skip(i as int);
        assert(rest[0] == sources@[i as int]);
        assert(rest.drop_first() == sources@.skip(i + 1));
        let s = &sources[i];
        if is_blank_str(s.repo.as_str()) {
            let mut msg = concat("Source #", decimal_string((i + 1) as u64).as_str());
            push_str(&mut msg, " is missing a required 'repo'.");
            return Err(Error::invalid(msg));
        }
        let (owner, name) = match parse_repo(s.repo.as_str()) {
            Ok(x) => x,
            Err(e) => {
                return Err(e);
            },
        };
        let mut f: Vec<(String, Json)> = Vec::new();
        f.push(field("source", Json::Str(concat3(owner.as_str(), "/", name.as_str()))));
        f.push(field("filter", Json::Str(s.filter.clone())));
        proof {
            lemma_fields_view(f@);
            assert(json_fields_view(f@) =~= match valid_source_item(*s) {
                JsonV::Object(x) => x,
                _ => Seq::empty(),
            });
        }
        items.push(Json::Object(f));
        i = i + 1;
    }
    assert(sources@.skip(sources.len() as int) =~= Seq::<SourceConfig>::empty());
    let target: Option<&str> = match repo {
        Some(r) => Some(r),
        None => match &batch.target_repo {
            Some(t) => Some(t.as_str()),
            None => None,
        },
    };
    if batch.issues.len() > 0 {
        return validate_issues(file, &batch.issues, target, account);
    }
    let inbox: Option<&str> = match &batch.inbox {
        Some(t) => Some(t.as_str()),
        None => None,
    };
    let mut f: Vec<(String, Json)> = Vec::new();
    f.push(field("status", jstr_of("valid")));
    f.push(field("file", jstr_of(file)));
    f.push(field("sourcesCount", Json::UInt(sources.len() as u64)));
    f.push(field("issuesCount", Json::UInt(0)));
    f.push(field("inbox", Json::Str(or_empty_str(inbox))));
    f.push(field("targetRepo", Json::Str(or_empty_str(target))));
    proof {
        lemma_seq_view(items@);
        assert(json_seq_view(items@) =~= Seq::new(
            sources@.len(),
            |k: int| valid_source_item(sources@[k]),
        ));
    }
    f.push(field("sources", Json::Array(items)));
    proof {
        lemma_fields_view(f@);
        let target_v = match crate::account::oview(repo) {
            Some(r) => Some(r),
            None => ostr(batch.target_repo),
        };
        assert(crate::account::oview(target) == target_v);
        assert(json_fields_view(f@) =~= seq![
            ("status"@, JsonV::Str("valid"@)),
            ("file"@, JsonV::Str(file@)),
            ("sourcesCount"@, JsonV::UInt(batch.sources.len() as u64)),
            ("issuesCount"@, JsonV::UInt(0)),
            ("inbox"@, JsonV::Str(crate::json::or_empty(ostr(batch.inbox)))),
            ("targetRepo"@, JsonV::Str(crate::json::or_empty(target_v))),
            (
                "sources"@,
                JsonV::Array(
                    Seq::new(batch.sources@.len(), |i: int| valid_source_item(batch.sources@[i])),
                ),
            ),
        ]);
    }
    Ok(ValidatePlan::Done(Json::Object(f)))
}

/// The issues file to validate: the positional path, else `--file`.
pub fn input_path(args: &ValidateArgs) -> (r: Result<String, Error>)
    ensures
        match args.path {
            Some(p) => r == Ok::<String, Error>(p),
            None => match args.file {
                Some(f) => r == Ok::<String, Error>(f),
                None => r is Err && r->Err_0@ == err(
                    ErrorCode::InvalidInput,
                    "An issues file or config path is required. Pass <PATH> or --file <PATH>."@,
                ),
            },
        },
{
    match &args.path {
        Some(p) => Ok(p.clone()),
        None => match &args.file {
            Some(f) => Ok(f.clone()),
            None => Err(
                Error::invalid(
                    owned(
                        "An issues file or config path is required. Pass <PATH> or --file <PATH>.",
                    ),
                ),
            ),
        },
    }
}

/// Validating what the file at `file` holds.
pub open spec fn spec_run(
    file: Seq<char>,
    parsed: ParsedInput,
    repo: Option<Seq<char>>,
    account: Option<Seq<char>>,
) -> Result<ValidatePlanV, ErrorV> {
    match parsed {
        ParsedInput::Issues(issues) => spec_validate_issues(file, issues@, repo, account),
        ParsedInput::Batch(batch) => spec_validate_batch(file, batch, repo, account),
    }
}

/// Validates what the issues file at `file` holds, with the repository and account that the
/// command line names.
pub fn run(file: &str, parsed: &ParsedInput, args: &ValidateArgs) -> (r: Result<ValidatePlan, Error>)
    ensures
        match spec_run(file@, *parsed, ostr(args.repo), ostr(args.account)) {
            Ok(p) => r is Ok && r->Ok_0@ == p,
            Err(e) => r is Err && r->Err_0@ == e,
        },
{
    let repo: Option<&str> = match &args.repo {
        Some(r) => Some(r.as_str()),
        None => None,
    };
    let account: Option<&str> = match &args.account {
        Some(a) => Some(a.as_str()),
        None => None,
    };
    match parsed {
        ParsedInput::Issues(issues) => validate_issues(file, issues, repo, account),
        ParsedInput::Batch(batch) => validate_batch(file, batch, repo, account),
    }
}


/// An issue whose milestone is named by title.
pub open spec fn names_milestone_title(it: IssueItem) -> bool {
    it.milestone matches Some(MilestoneRef::Title(_))
}

/// The milestone title an issue names.
pub open spec fn milestone_title_of(it: IssueItem) -> Seq<char> {
    match it.milestone {
        Some(MilestoneRef::Title(t)) => t@,
        _ => Seq::empty(),
    }
}

/// The milestone titles a repository check looks up are exactly those the issues name, one per
/// issue that names one, in issue order; so every issue's milestone title is checked.
pub proof fn law_every_milestone_title_is_checked(issues: Seq<IssueItem>)
    ensures
        milestone_titles(issues) == issues.filter(|it: IssueItem| names_milestone_title(it)).map_values(
            |it: IssueItem| milestone_title_of(it),
        ),
        forall|i: int|
            0 <= i < issues.len() && names_milestone_title(#[trigger] issues[i]) ==> milestone_titles(
                issues,
            ).contains(milestone_title_of(issues[i])),
    decreases issues.len(),
{
    reveal(Seq::filter);
    let p = |it: IssueItem| names_milestone_title(it);
    let f = |it: IssueItem| milestone_title_of(it);
    if issues.len() > 0 {
        let init = issues.drop_last();
        law_every_milestone_title_is_checked(init);
        assert(issues.filter(p) == if p(issues.last()) {
            init.filter(p).push(issues.last())
        } else {
            init.filter(p)
        });
        if p(issues.last()) {
            assert(init.filter(p).push(issues.last()).map_values(f) =~= init.filter(p).map_values(f).push(
                f(issues.last()),
            ));
        }
        assert forall|i: int|
            0 <= i < issues.len() && names_milestone_title(#[trigger] issues[i]) implies milestone_titles(
                issues,
            ).contains(milestone_title_of(issues[i])) by {
            if i < issues.len() - 1 {
                assert(init[i] == issues[i]);
                let j = choose|j: int| 0 <= j < milestone_titles(init).len() && milestone_titles(init)[j]
                    == milestone_title_of(issues[i]);
                assert(milestone_titles(issues)[j] == milestone_titles(init)[j]);
            } else {
                assert(milestone_titles(issues).last() == milestone_title_of(issues[i]));
            }
        }
    } else {
        assert(issues.filter(p) =~= Seq::<IssueItem>::empty());
    }
}

} // verus!
