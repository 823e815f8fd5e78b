//! `import`: creates issues in a repository, or notes in an inbox directory, skipping what the
//! import log records as already imported. Each importer is a state machine: it asks for one
//! piece of outside work at a time and is handed back the answer.
use vstd::prelude::*;

use crate::cli::ImportArgs;
use crate::error::{Error, ErrorCode, ErrorV, err};
use crate::importer::{
    BatchConfig, ImportLog, IssueItem, MilestoneRef, ParsedInput, SourceConfig, imported_entry,
    parse_repo, resolve_milestone, spec_parse_repo, spec_resolve_milestone,
};
use crate::json::{
    Json, JsonV, field_array, field_str, field_u64, json_fields_view, json_seq_view, json_view,
    jstr_of, lemma_fields_view, lemma_seq_view, or_empty, str_array, str_array_of, jget, lookup, lemma_lookup_push,
};
use crate::text::{
    concat, concat3, is_blank, is_blank_str, owned, push_str, str_eq, to_lowercase, trim, trim_str,
    unicode_lower,
};

pub mod inbox;

verus! {

/// An issue waiting for outside work: its position, trimmed title, log key, and milestone.
pub struct Pending {
    pub index: usize,
    pub title: String,
    pub key: String,
    pub milestone: Option<u64>,
    /// Whether the milestone is known, so that only the creation is awaited.
    pub resolved: bool,
}

/// The mathematical value of a [`Pending`] issue.
pub struct PendingV {
    pub index: nat,
    pub title: Seq<char>,
    pub key: Seq<char>,
    pub milestone: Option<u64>,
    pub resolved: bool,
}

/// An import of issues into the repository `owner/repo`.
pub struct RepoImport {
    owner: String,
    repo: String,
    issues: Vec<IssueItem>,
    dry_run: bool,
    skip_existing: bool,
    existing: Vec<String>,
    log_path: String,
    next: usize,
    total: usize,
    imported: usize,
    skipped: usize,
    planned: usize,
    items: Vec<Json>,
    pending: Option<Pending>,
}

/// The mathematical value of a [`RepoImport`]: the issues, the options, the lower-cased
/// titles already in the repository, the position reached, the counters, the report lines,
/// and the issue waiting for outside work.
pub struct RepoImportV {
    pub owner: Seq<char>,
    pub repo: Seq<char>,
    pub issues: Seq<IssueItem>,
    pub dry_run: bool,
    pub skip_existing: bool,
    pub existing: Seq<Seq<char>>,
    pub log_path: Seq<char>,
    pub next: nat,
    pub total: nat,
    pub imported: nat,
    pub skipped: nat,
    pub planned: nat,
    pub items: Seq<JsonV>,
    pub pending: Option<PendingV>,
}

/// What the importer asks for next.
#[derive(Debug)]
pub enum RepoAction {
    /// The repository's milestone listing, for the pending issue's milestone title.
    ListMilestones,
    /// Create an issue with this payload.
    CreateIssue(Json),
    /// Nothing more: print this report.
    Finish(Json),
}

/// The mathematical value of a [`RepoAction`].
pub enum RepoActionV {
    ListMilestones,
    CreateIssue(JsonV),
    Finish(JsonV),
}

impl View for RepoAction {
    type V = RepoActionV;

    open spec fn view(&self) -> RepoActionV {
        match self {
            RepoAction::ListMilestones => RepoActionV::ListMilestones,
            RepoAction::CreateIssue(p) => RepoActionV::CreateIssue(p@),
            RepoAction::Finish(r) => RepoActionV::Finish(r@),
        }
    }
}

pub open spec fn pending_view(p: Option<Pending>) -> Option<PendingV> {
    match p {
        Some(p) => Some(
            PendingV {
                index: p.index as nat,
                title: p.title@,
                key: p.key@,
                milestone: p.milestone,
                resolved: p.resolved,
            },
        ),
        None => None,
    }
}

impl View for RepoImport {
    type V = RepoImportV;

    closed spec fn view(&self) -> RepoImportV {
        RepoImportV {
            owner: self.owner@,
            repo: self.repo@,
            issues: self.issues@,
            dry_run: self.dry_run,
            skip_existing: self.skip_existing,
            existing: self.existing.deep_view(),
            log_path: self.log_path@,
            next: self.next as nat,
            total: self.total as nat,
            imported: self.imported as nat,
            skipped: self.skipped as nat,
            planned: self.planned as nat,
            items: json_seq_view(self.items@),
            pending: pending_view(self.pending),
        }
    }
}

/// The log key of an issue: `owner/repo#id`, or `owner/repo#title` without an id.
pub open spec fn issue_key(owner: Seq<char>, repo: Seq<char>, issue: IssueItem) -> Seq<char> {
    owner + "/"@ + repo + "#"@ + match issue.id {
        Some(id) => id@,
        None => trim(issue.title@),
    }
}

/// What is to be done with an issue before any outside work.
pub enum Triage {
    /// Its title is blank: it is passed over.
    Blank,
    /// The log records its key.
    Imported,
    /// The repository has an issue with its title, and existing issues are to be skipped.
    Exists,
    /// Its milestone is a title, to be looked up.
    NeedsMilestones,
    /// It can go ahead, with this milestone number.
    Ready(Option<u64>),
}

pub open spec fn triage(s: RepoImportV, log: Map<Seq<char>, JsonV>, issue: IssueItem) -> Triage {
    let title = trim(issue.title@);
    if title.len() == 0 {
        Triage::Blank
    } else if log.dom().contains(issue_key(s.owner, s.repo, issue)) {
        Triage::Imported
    } else if s.skip_existing && s.existing.contains(unicode_lower(title)) {
        Triage::Exists
    } else {
        match issue.milestone {
            Some(MilestoneRef::Title(_)) => Triage::NeedsMilestones,
            Some(MilestoneRef::Number(n)) => Triage::Ready(Some(n)),
            None => Triage::Ready(None),
        }
    }
}

/// An optional number as JSON: the number, or null.
pub open spec fn opt_u64(n: Option<u64>) -> JsonV {
    match n {
        Some(n) => JsonV::UInt(n),
        None => JsonV::Null,
    }
}

/// An optional list of strings as JSON, empty when absent.
pub open spec fn list_or_empty(v: Option<Vec<String>>) -> JsonV {
    match v {
        Some(l) => str_array(l@),
        None => JsonV::Array(Seq::empty()),
    }
}

/// The report line for a skipped issue.
pub open spec fn skip_item(index: nat, title: Seq<char>, status: Seq<char>, key: Seq<char>) -> JsonV {
    JsonV::Object(
        seq![
            ("index"@, JsonV::UInt((index + 1) as u64)),
            ("title"@, JsonV::Str(title)),
            ("status"@, JsonV::Str(status)),
            ("key"@, JsonV::Str(key)),
        ],
    )
}

/// The report line for an issue a dry run would create.
pub open spec fn planned_item(index: nat, title: Seq<char>, m: Option<u64>, issue: IssueItem) -> JsonV {
    JsonV::Object(
        seq![
            ("index"@, JsonV::UInt((index + 1) as u64)),
            ("title"@, JsonV::Str(title)),
            ("status"@, JsonV::Str("planned"@)),
            ("milestone"@, opt_u64(m)),
            ("labels"@, list_or_empty(issue.labels)),
            ("assignees"@, list_or_empty(issue.assignees)),
        ],
    )
}

/// The report line for a created issue.
pub open spec fn created_item(index: nat, title: Seq<char>, number: Option<u64>, url: Seq<char>) -> JsonV {
    JsonV::Object(
        seq![
            ("index"@, JsonV::UInt((index + 1) as u64)),
            ("title"@, JsonV::Str(title)),
            ("status"@, JsonV::Str("created"@)),
            ("number"@, opt_u64(number)),
            ("url"@, JsonV::Str(url)),
        ],
    )
}

/// The payload fields for an issue's body, when it has one.
pub open spec fn with_body(f: Seq<(Seq<char>, JsonV)>, issue: IssueItem) -> Seq<(Seq<char>, JsonV)> {
    match issue.body {
        Some(b) => f.push(("body"@, JsonV::Str(b@))),
        None => f,
    }
}

/// The payload fields for an issue's labels, when it has them.
pub open spec fn with_labels(f: Seq<(Seq<char>, JsonV)>, issue: IssueItem) -> Seq<(Seq<char>, JsonV)> {
    match issue.labels {
        Some(l) => f.push(("labels"@, str_array(l@))),
        None => f,
    }
}

/// The payload fields for an issue's assignees, when it has them.
pub open spec fn with_assignees(f: Seq<(Seq<char>, JsonV)>, issue: IssueItem) -> Seq<
    (Seq<char>, JsonV),
> {
    match issue.assignees {
        Some(a) => f.push(("assignees"@, str_array(a@))),
        None => f,
    }
}

/// The payload field for a milestone number, when there is one.
pub open spec fn with_milestone(f: Seq<(Seq<char>, JsonV)>, m: Option<u64>) -> Seq<(Seq<char>, JsonV)> {
    match m {
        Some(n) => f.push(("milestone"@, JsonV::UInt(n))),
        None => f,
    }
}

/// The issue-creation payload: the trimmed title, then whichever of body, labels, assignees
/// and milestone the issue has.
pub open spec fn payload(title: Seq<char>, issue: IssueItem, m: Option<u64>) -> JsonV {
    JsonV::Object(
        with_milestone(
            with_assignees(
                with_labels(with_body(seq![("title"@, JsonV::Str(title))], issue), issue),
                issue,
            ),
            m,
        ),
    )
}

/// The final report.
pub open spec fn summary(s: RepoImportV) -> JsonV {
    JsonV::Object(
        seq![
            ("status"@, JsonV::Str("ok"@)),
            ("targetRepo"@, JsonV::Str(s.owner + "/"@ + s.repo)),
            ("total"@, JsonV::UInt(s.total as u64)),
            ("imported"@, JsonV::UInt(s.imported as u64)),
            ("planned"@, JsonV::UInt(s.planned as u64)),
            ("skipped"@, JsonV::UInt(s.skipped as u64)),
            ("dryRun"@, JsonV::Bool(s.dry_run)),
            ("logPath"@, JsonV::Str(s.log_path)),
            ("items"@, JsonV::Array(s.items)),
        ],
    )
}

/// An issue at `index` whose milestone is known: a dry run plans it and moves on, a real run
/// asks for it to be created.
pub open spec fn ready(
    s: RepoImportV,
    index: nat,
    title: Seq<char>,
    key: Seq<char>,
    m: Option<u64>,
) -> (RepoImportV, Option<RepoActionV>) {
    if s.dry_run {
        (
            RepoImportV {
                planned: s.planned + 1,
                items: s.items.push(planned_item(index, title, m, s.issues[index as int])),
                next: index + 1,
                pending: None,
                ..s
            },
            None,
        )
    } else {
        (
            RepoImportV {
                pending: Some(PendingV { index, title, key, milestone: m, resolved: true }),
                ..s
            },
            Some(RepoActionV::CreateIssue(payload(title, s.issues[index as int], m))),
        )
    }
}

/// Taking up the issue at the current position, with the log as it is.
pub open spec fn step(s: RepoImportV, log: Map<Seq<char>, JsonV>) -> (RepoImportV, Option<
    RepoActionV,
>) {
    let i = s.next;
    let issue = s.issues[i as int];
    let title = trim(issue.title@);
    let key = issue_key(s.owner, s.repo, issue);
    let t = RepoImportV { total: s.total + 1, ..s };
    match triage(s, log, issue) {
        Triage::Blank => (RepoImportV { next: i + 1, ..t }, None),
        Triage::Imported => (
            RepoImportV {
                skipped: t.skipped + 1,
                items: t.items.push(skip_item(i, title, "already_imported"@, key)),
                next: i + 1,
                ..t
            },
            None,
        ),
        Triage::Exists => (
            RepoImportV {
                skipped: t.skipped + 1,
                items: t.items.push(skip_item(i, title, "already_exists"@, key)),
                next: i + 1,
                ..t
            },
            None,
        ),
        Triage::NeedsMilestones => (
            RepoImportV {
                pending: Some(PendingV { index: i, title, key, milestone: None, resolved: false }),
                ..t
            },
            Some(RepoActionV::ListMilestones),
        ),
        Triage::Ready(m) => ready(t, i, title, key, m),
    }
}

/// Going through the issues from the current position until one needs outside work, or to
/// the end, where the report is ready.
pub open spec fn run_from(s: RepoImportV, log: Map<Seq<char>, JsonV>) -> (RepoImportV, RepoActionV)
    decreases s.issues.len() - s.next,
{
    if s.next >= s.issues.len() {
        (s, RepoActionV::Finish(summary(s)))
    } else {
        let (s2, a) = step(s, log);
        match a {
            Some(x) => (s2, x),
            None => if s2.next > s.next {
                run_from(s2, log)
            } else {
                (s2, RepoActionV::Finish(summary(s2)))
            },
        }
    }
}

/// The state once the milestone listing for the pending issue arrives.
pub open spec fn after_milestones(s: RepoImportV, log: Map<Seq<char>, JsonV>, listing: JsonV) -> Result<
    (RepoImportV, RepoActionV),
    ErrorV,
> {
    let p = s.pending->0;
    match spec_resolve_milestone(s.issues[p.index as int].milestone->0, listing, s.owner, s.repo) {
        Err(e) => Err(e),
        Ok(m) => {
            let (s2, a) = ready(RepoImportV { pending: None, ..s }, p.index, p.title, p.key, m);
            Ok(
                match a {
                    Some(x) => (s2, x),
                    None => run_from(s2, log),
                },
            )
        },
    }
}

/// The log once the pending issue was created with answer `response` at time `now`.
pub open spec fn log_after_created(
    s: RepoImportV,
    log: Map<Seq<char>, JsonV>,
    response: JsonV,
    now: Seq<char>,
) -> Map<Seq<char>, JsonV> {
    let p = s.pending->0;
    log.insert(
        p.key,
        imported_entry(
            p.key,
            now,
            field_u64(response, "number"@),
            Some(or_empty(field_str(response, "html_url"@))),
        ),
    )
}

/// The state once the pending issue was created with answer `response`.
pub open spec fn after_created(s: RepoImportV, log: Map<Seq<char>, JsonV>, response: JsonV) -> (
    RepoImportV,
    RepoActionV,
) {
    let p = s.pending->0;
    let s2 = RepoImportV {
        imported: s.imported + 1,
        items: s.items.push(
            created_item(
                p.index,
                p.title,
                field_u64(response, "number"@),
                or_empty(field_str(response, "html_url"@)),
            ),
        ),
        next: p.index + 1,
        pending: None,
        ..s
    };
    run_from(s2, log)
}

/// A state reachable by the importer: the position within the issues, a pending issue only
/// at the current position, and counters bounded by the issues taken up.
pub open spec fn well_formed(s: RepoImportV) -> bool {
    &&& s.next <= s.issues.len()
    &&& s.issues.len() < usize::MAX
    &&& s.imported + s.skipped + s.planned <= s.next
    &&& s.items.len() == s.imported + s.skipped + s.planned
    &&& match s.pending {
        Some(p) => p.index == s.next && s.next < s.issues.len() && s.total == s.next + 1,
        None => s.total == s.next,
    }
}

/// Waiting for the milestone listing.
pub open spec fn awaits_milestones(s: RepoImportV) -> bool {
    &&& well_formed(s)
    &&& s.pending matches Some(p)
    &&& !p.resolved
    &&& s.issues[p.index as int].milestone matches Some(MilestoneRef::Title(_))
}

/// Waiting for an issue to be created.
pub open spec fn awaits_creation(s: RepoImportV) -> bool {
    &&& well_formed(s)
    &&& s.pending matches Some(p)
    &&& p.resolved
    &&& !s.dry_run
}

/// The lower-cased, trimmed titles in a listing of the repository's issues.
pub open spec fn existing_titles(listing: JsonV) -> Seq<Seq<char>> {
    match listing {
        JsonV::Array(items) => titles_in(items),
        _ => Seq::empty(),
    }
}

pub open spec fn titles_in(items: Seq<JsonV>) -> Seq<Seq<char>>
    decreases items.len(),
{
    if items.len() == 0 {
        Seq::empty()
    } else {
        let init = titles_in(items.drop_last());
        match field_str(items.last(), "title"@) {
            Some(t) => init.push(unicode_lower(trim(t))),
            None => init,
        }
    }
}

/// The parts of the state that no step changes.
pub open spec fn same_setup(a: RepoImportV, b: RepoImportV) -> bool {
    &&& a.owner == b.owner
    &&& a.repo == b.repo
    &&& a.issues == b.issues
    &&& a.dry_run == b.dry_run
    &&& a.skip_existing == b.skip_existing
    &&& a.existing == b.existing
    &&& a.log_path == b.log_path
}

/// What the action says about the state it leaves.
pub open spec fn action_fits(s: RepoImportV, a: RepoActionV) -> bool {
    match a {
        RepoActionV::ListMilestones => awaits_milestones(s),
        RepoActionV::CreateIssue(_) => awaits_creation(s),
        RepoActionV::Finish(r) => well_formed(s) && s.pending is None && s.next == s.issues.len()
            && r == summary(s),
    }
}

proof fn lemma_step(s: RepoImportV, log: Map<Seq<char>, JsonV>)
    requires
        well_formed(s),
        s.pending is None,
        s.next < s.issues.len(),
    ensures
        well_formed(step(s, log).0),
        same_setup(s, step(s, log).0),
        match step(s, log).1 {
            Some(a) => action_fits(step(s, log).0, a),
            None => step(s, log).0.pending is None && step(s, log).0.next == s.next + 1,
        },
{
}

/// Going through the issues leaves a well-formed state that fits the action asked for.
pub proof fn lemma_run_from(s: RepoImportV, log: Map<Seq<char>, JsonV>)
    requires
        well_formed(s),
        s.pending is None,
    ensures
        same_setup(s, run_from(s, log).0),
        action_fits(run_from(s, log).0, run_from(s, log).1),
    decreases s.issues.len() - s.next,
{
    if s.next < s.issues.len() {
        lemma_step(s, log);
        let (s2, a) = step(s, log);
        if a is None {
            lemma_run_from(s2, log);
        }
    }
}

fn field(k: &str, v: Json) -> (r: (String, Json))
    ensures
        r.0@ == k@,
        r.1 == v,
{
    (owned(k), v)
}

fn opt_u64_json(n: Option<u64>) -> (r: Json)
    ensures
        r@ == opt_u64(n),
{
    match n {
        Some(n) => Json::UInt(n),
        None => Json::Null,
    }
}

fn list_json(v: &Option<Vec<String>>) -> (r: Json)
    ensures
        r@ == list_or_empty(*v),
{
    match v {
        Some(l) => str_array_of(l),
        None => {
            let r = Json::Array(Vec::new());
            proof {
                lemma_seq_view(Seq::<Json>::empty());
            }
            r
        },
    }
}

fn skip_item_json(index: usize, title: &str, status: &str, key: &str) -> (r: Json)
    requires
        index < usize::MAX,
    ensures
        r@ == skip_item(index as nat, title@, status@, key@),
{
    let mut f: Vec<(String, Json)> = Vec::new();
    f.push(field("index", Json::UInt((index + 1) as u64)));
    f.push(field("title", jstr_of(title)));
    f.push(field("status", jstr_of(status)));
    f.push(field("key", jstr_of(key)));
    proof {
        lemma_fields_view(f@);
        assert(json_fields_view(f@) =~= match skip_item(index as nat, title@, status@, key@) {
            JsonV::Object(x) => x,
            _ => Seq::empty(),
        });
    }
    Json::Object(f)
}

fn planned_item_json(index: usize, title: &str, m: Option<u64>, issue: &IssueItem) -> (r: Json)
    requires
        index < usize::MAX,
    ensures
        r@ == planned_item(index as nat, title@, m, *issue),
{
    let mut f: Vec<(String, Json)> = Vec::new();
    f.push(field("index", Json::UInt((index + 1) as u64)));
    f.push(field("title", jstr_of(title)));
    f.push(field("status", jstr_of("planned")));
    f.push(field("milestone", opt_u64_json(m)));
    f.push(field("labels", list_json(&issue.labels)));
    f.push(field("assignees", list_json(&issue.assignees)));
    proof {
        lemma_fields_view(f@);
        assert(json_fields_view(f@) =~= match planned_item(index as nat, title@, m, *issue) {
            JsonV::Object(x) => x,
            _ => Seq::empty(),
        });
    }
    Json::Object(f)
}

fn created_item_json(index: usize, title: &str, number: Option<u64>, url: &str) -> (r: Json)
    requires
        index < usize::MAX,
    ensures
        r@ == created_item(index as nat, title@, number, url@),
{
    let mut f: Vec<(String, Json)> = Vec::new();
    f.push(field("index", Json::UInt((index + 1) as u64)));
    f.push(field("title", jstr_of(title)));
    f.push(field("status", jstr_of("created")));
    f.push(field("number", opt_u64_json(number)));
    f.push(field("url", jstr_of(url)));
    proof {
        lemma_fields_view(f@);
        assert(json_fields_view(f@) =~= match created_item(index as nat, title@, number, url@) {
            JsonV::Object(x) => x,
            _ => Seq::empty(),
        });
    }
    Json::Object(f)
}

fn payload_json(title: &str, issue: &IssueItem, m: Option<u64>) -> (r: Json)
    ensures
        r@ == payload(title@, *issue, m),
{
    let ghost f0 = seq![("title"@, JsonV::Str(title@))];
    let ghost f1 = with_body(f0, *issue);
    let ghost f2 = with_labels(f1, *issue);
    let ghost f3 = with_assignees(f2, *issue);
    let ghost f4 = with_milestone(f3, m);
    let mut f: Vec<(String, Json)> = Vec::new();
    f.push(field("title", jstr_of(title)));
    proof {
        lemma_fields_view(f@);
        assert(json_fields_view(f@) =~= f0);
    }
    match &issue.body {
        Some(b) => f.push(field("body", Json::Str(b.clone()))),
        None => {},
    }
    proof {
        lemma_fields_view(f@);
        assert(json_fields_view(f@) =~= f1);
    }
    match &issue.labels {
        Some(l) => f.push(field("labels", str_array_of(l))),
        None => {},
    }
    proof {
        lemma_fields_view(f@);
        assert(json_fields_view(f@) =~= f2);
    }
    match &issue.assignees {
        Some(a) => f.push(field("assignees", str_array_of(a))),
        None => {},
    }
    proof {
        lemma_fields_view(f@);
        assert(json_fields_view(f@) =~= f3);
    }
    match m {
        Some(n) => f.push(field("milestone", Json::UInt(n))),
        None => {},
    }
    proof {
        lemma_fields_view(f@);
        assert(json_fields_view(f@) =~= f4);
    }
    Json::Object(f)
}

/// The log key of an issue.
pub fn issue_key_of(owner: &str, repo: &str, issue: &IssueItem) -> (r: String)
    ensures
        r@ == issue_key(owner@, repo@, *issue),
{
    let mut k = concat3(owner, "/", repo);
    push_str(&mut k, "#");
    match &issue.id {
        Some(id) => push_str(&mut k, id.as_str()),
        None => {
            let t = trim_str(issue.title.as_str());
            push_str(&mut k, t.as_str());
        },
    }
    k
}

fn contains_string(v: &Vec<String>, s: &str) -> (r: bool)
    ensures
        r == v.deep_view().contains(s@),
{
    let mut i: usize = 0;
    while i < v.len()
        invariant
            i <= v.len(),
            forall|k: int| 0 <= k < i ==> v@[k]@ != s@,
        decreases v.len() - i,
    {
        if str_eq(v[i].as_str(), s) {
            assert(v.deep_view()[i as int] == s@);
            return true;
        }
        i = i + 1;
    }
    assert forall|k: int| 0 <= k < v.deep_view().len() implies v.deep_view()[k] != s@ by {
        assert(v.deep_view()[k] == v@[k]@);
    }
    false
}

/// The lower-cased, trimmed titles in a listing of the repository's issues.
pub fn titles_of_listing(listing: &Json) -> (r: Vec<String>)
    ensures
        r.deep_view() == existing_titles(listing@),
{
    let mut out: Vec<String> = Vec::new();
    match listing.as_array() {
        Some(arr) => {
            proof {
                lemma_seq_view(arr@);
            }
            let ghost items = json_seq_view(arr@);
            let mut i: usize = 0;
            while i < arr.len()
                invariant
                    i <= arr.len(),
                    items == json_seq_view(arr@),
                    items.len() == arr.len(),
                    forall|k: int| 0 <= k < arr.len() ==> #[trigger] items[k] == json_view(arr@[k]),
                    out.deep_view() == titles_in(items.take(i as int)),
                decreases arr.len() - i,
            {
                assert(items.take(i + 1).drop_last() == items.take(i as int));
                assert(items.take(i + 1).last() == items[i as int]);
                match arr[i].str_field("title") {
                    Some(t) => {
                        let tt = trim_str(t.as_str());
                        out.push(to_lowercase(tt.as_str()));
                    },
                    None => {},
                }
                assert(out.deep_view() =~= titles_in(items.take(i + 1)));
                i = i + 1;
            }
            assert(items.take(items.len() as int) == items);
        },
        None => {},
    }
    out
}

impl RepoImport {
    /// An import of `issues` into the repository that `target` names.
    pub fn new(
        target: &str,
        issues: Vec<IssueItem>,
        dry_run: bool,
        skip_existing: bool,
        log_path: String,
    ) -> (r: Result<RepoImport, Error>)
        requires
            issues.len() < usize::MAX,
        ensures
            match spec_parse_repo(target@) {
                Some((o, n)) => r is Ok && r->Ok_0@ == (RepoImportV {
                    owner: o,
                    repo: n,
                    issues: issues@,
                    dry_run,
                    skip_existing,
                    existing: Seq::empty(),
                    log_path: log_path@,
                    next: 0,
                    total: 0,
                    imported: 0,
                    skipped: 0,
                    planned: 0,
                    items: Seq::empty(),
                    pending: None,
                }),
                None => r is Err && r->Err_0@ == err(
                    ErrorCode::InvalidInput,
                    crate::importer::bad_repo_message(target@),
                ),
            },
            r is Ok ==> well_formed(r->Ok_0@),
    {
        let (owner, repo) = match parse_repo(target) {
            Ok(x) => x,
            Err(e) => {
                return Err(e);
            },
        };
        let r = RepoImport {
            owner,
            repo,
            issues,
            dry_run,
            skip_existing,
            existing: Vec::new(),
            log_path,
            next: 0,
            total: 0,
            imported: 0,
            skipped: 0,
            planned: 0,
            items: Vec::new(),
            pending: None,
        };
        proof {
            lemma_seq_view(Seq::<Json>::empty());
            assert(r@.existing =~= Seq::<Seq<char>>::empty());
            assert(r@.items =~= Seq::<JsonV>::empty());
        }
        Ok(r)
    }

    /// The repository's owner.
    pub fn owner(&self) -> (r: &String)
        ensures
            r@ == self@.owner,
    {
        &self.owner
    }

    /// The repository's name.
    pub fn repo(&self) -> (r: &String)
        ensures
            r@ == self@.repo,
    {
        &self.repo
    }

    /// Whether issues whose title the repository already has are skipped.
    pub fn skips_existing(&self) -> (r: bool)
        ensures
            r == self@.skip_existing,
    {
        self.skip_existing
    }

    /// Takes the repository's issue listing, for skipping titles it already has.
    pub fn set_existing(&mut self, listing: &Json)
        ensures
            final(self)@ == (RepoImportV { existing: existing_titles(listing@), ..old(self)@ }),
    {
        self.existing = titles_of_listing(listing);
    }

    fn summary_json(&self) -> (r: Json)
        requires
            well_formed(self@),
        ensures
            r@ == summary(self@),
    {
        let mut f: Vec<(String, Json)> = Vec::new();
        f.push(field("status", jstr_of("ok")));
        f.push(field("targetRepo", Json::Str(concat3(self.owner.as_str(), "/", self.repo.as_str()))));
        f.push(field("total", Json::UInt(self.total as u64)));
        f.push(field("imported", Json::UInt(self.imported as u64)));
        f.push(field("planned", Json::UInt(self.planned as u64)));
        f.push(field("skipped", Json::UInt(self.skipped as u64)));
        f.push(field("dryRun", Json::Bool(self.dry_run)));
        f.push(field("logPath", Json::Str(self.log_path.clone())));
        let mut items: Vec<Json> = Vec::new();
        let mut i: usize = 0;
        while i < self.items.len()
            invariant
                i <= self.items.len(),
                items@.len() == i,
                forall|k: int| 0 <= k < i ==> json_view(#[trigger] items@[k]) == json_view(self.items@[k]),
            decreases self.items.len() - i,
        {
            items.push(self.items[i].duplicate());
            i = i + 1;
        }
        proof {
            lemma_seq_view(items@);
            lemma_seq_view(self.items@);
            assert(json_seq_view(items@) =~= json_seq_view(self.items@));
        }
        f.push(field("items", Json::Array(items)));
        proof {
            lemma_fields_view(f@);
            assert(json_fields_view(f@) =~= match summary(self@) {
                JsonV::Object(x) => x,
                _ => Seq::empty(),
            });
        }
        Json::Object(f)
    }

    /// A known milestone for the issue at `index`: plan it in a dry run, else ask for it.
    fn go_ahead(&mut self, index: usize, title: String, key: String, m: Option<u64>) -> (r: Option<
        RepoAction,
    >)
        requires
            taken_up(old(self)@),
            index == old(self)@.next,
            index < old(self)@.issues.len(),
        ensures
            (final(self)@, match r {
                Some(a) => Some(a@),
                None => None,
            }) == ready(old(self)@, index as nat, title@, key@, m),
    {
        if self.dry_run {
            let item = planned_item_json(index, title.as_str(), m, &self.issues[index]);
            let ghost old_items = self.items@;
            self.items.push(item);
            proof {
                lemma_seq_view(old_items);
                lemma_seq_view(self.items@);
                assert(json_seq_view(self.items@) =~= json_seq_view(old_items).push(item@));
            }
            self.planned = self.planned + 1;
            self.next = index + 1;
            None
        } else {
            let p = payload_json(title.as_str(), &self.issues[index], m);
            self.pending = Some(Pending { index, title, key, milestone: m, resolved: true });
            Some(RepoAction::CreateIssue(p))
        }
    }

    /// Takes up the issue at the current position.
    fn step_exec(&mut self, log: &ImportLog) -> (r: Option<RepoAction>)
        requires
            well_formed(old(self)@),
            old(self)@.pending is None,
            old(self)@.next < old(self)@.issues.len(),
        ensures
            (final(self)@, match r {
                Some(a) => Some(a@),
                None => None,
            }) == step(old(self)@, log@),
    {
        let i = self.next;
        let title = trim_str(self.issues[i].title.as_str());
        let key = issue_key_of(self.owner.as_str(), self.repo.as_str(), &self.issues[i]);
        self.total = self.total + 1;
        if title.as_str().is_empty() {
            self.next = i + 1;
            return None;
        }
        if log.is_imported(key.as_str()) {
            let item = skip_item_json(i, title.as_str(), "already_imported", key.as_str());
            let ghost old_items = self.items@;
            self.items.push(item);
            proof {
                lemma_seq_view(old_items);
                lemma_seq_view(self.items@);
                assert(json_seq_view(self.items@) =~= json_seq_view(old_items).push(item@));
            }
            self.skipped = self.skipped + 1;
            self.next = i + 1;
            return None;
        }
        if self.skip_existing {
            let lower = to_lowercase(title.as_str());
            if contains_string(&self.existing, lower.as_str()) {
                let item = skip_item_json(i, title.as_str(), "already_exists", key.as_str());
                let ghost old_items = self.items@;
                self.items.push(item);
                proof {
                    lemma_seq_view(old_items);
                    lemma_seq_view(self.items@);
                    assert(json_seq_view(self.items@) =~= json_seq_view(old_items).push(item@));
                }
                self.skipped = self.skipped + 1;
                self.next = i + 1;
                return None;
            }
        }
        let m: Option<u64> = match &self.issues[i].milestone {
            Some(MilestoneRef::Title(_)) => {
                self.pending = Some(
                    Pending { index: i, title, key, milestone: None, resolved: false },
                );
                return Some(RepoAction::ListMilestones);
            },
            Some(MilestoneRef::Number(n)) => Some(*n),
            None => None,
        };
        self.go_ahead(i, title, key, m)
    }

    /// Goes through the issues from the current position until one needs outside work.
    fn advance(&mut self, log: &ImportLog) -> (r: RepoAction)
        requires
            well_formed(old(self)@),
            old(self)@.pending is None,
        ensures
            (final(self)@, r@) == run_from(old(self)@, log@),
    {
        loop
            invariant
                well_formed(self@),
                self@.pending is None,
                run_from(self@, log@) == run_from(old(self)@, log@),
            decreases self@.issues.len() - self@.next,
        {
            if self.next >= self.issues.len() {
                return RepoAction::Finish(self.summary_json());
            }
            proof {
                lemma_step(self@, log@);
            }
            match self.step_exec(log) {
                Some(a) => {
                    return a;
                },
                None => {},
            }
        }
    }

    /// Starts the import with the log as it is.
    pub fn start(&mut self, log: &ImportLog) -> (r: RepoAction)
        requires
            well_formed(old(self)@),
            old(self)@.pending is None,
        ensures
            (final(self)@, r@) == run_from(old(self)@, log@),
            action_fits(final(self)@, r@),
    {
        proof {
            lemma_run_from(self@, log@);
        }
        self.advance(log)
    }

    /// Goes on with the repository's milestone listing, asked for by the last action.
    pub fn on_milestones(&mut self, listing: &Json, log: &ImportLog) -> (r: Result<RepoAction, Error>)
        requires
            awaits_milestones(old(self)@),
        ensures
            match after_milestones(old(self)@, log@, listing@) {
                Ok((s, a)) => r is Ok && final(self)@ == s && r->Ok_0@ == a && action_fits(s, a),
                Err(e) => r is Err && r->Err_0@ == e,
            },
    {
        let p = match self.pending.take() {
            Some(p) => p,
            None => {
                return Err(Error::other(String::new()));
            },
        };
        let ghost s1 = self@;
        let m = match &self.issues[p.index].milestone {
            Some(mr) => match resolve_milestone(
                self.owner.as_str(),
                self.repo.as_str(),
                mr,
                listing,
            ) {
                Ok(m) => m,
                Err(e) => {
                    return Err(e);
                },
            },
            None => None,
        };
        match self.go_ahead(p.index, p.title, p.key, m) {
            Some(a) => {
                proof {
                    lemma_step_ready_fits(s1, p.index as nat, p.title@, p.key@, m);
                }
                Ok(a)
            },
            None => {
                proof {
                    lemma_run_from(self@, log@);
                }
                Ok(self.advance(log))
            },
        }
    }

    /// Goes on once the pending issue was created; `response` is GitHub's answer and `now` the
    /// time of the import, recorded in the log. The log must be saved afterwards.
    pub fn on_created(&mut self, response: &Json, log: &mut ImportLog, now: &str) -> (r: RepoAction)
        requires
            awaits_creation(old(self)@),
        ensures
            final(log)@ == log_after_created(old(self)@, old(log)@, response@, now@),
            final(log).spec_path() == old(log).spec_path(),
            (final(self)@, r@) == after_created(old(self)@, final(log)@, response@),
            action_fits(final(self)@, r@),
    {
        let ghost s0 = self@;
        let p = match self.pending.take() {
            Some(p) => p,
            None => {
                return RepoAction::Finish(Json::Null);
            },
        };
        let number = response.u64_field("number");
        let url = match response.str_field("html_url") {
            Some(u) => u,
            None => String::new(),
        };
        log.mark_imported(p.key.as_str(), number, Some(url.as_str()), now);
        let item = created_item_json(p.index, p.title.as_str(), number, url.as_str());
        let ghost old_items = self.items@;
        self.items.push(item);
        proof {
            lemma_seq_view(old_items);
            lemma_seq_view(self.items@);
            assert(json_seq_view(self.items@) =~= json_seq_view(old_items).push(item@));
        }
        self.imported = self.imported + 1;
        self.next = p.index + 1;
        proof {
            lemma_run_from(self@, log@);
        }
        self.advance(log)
    }
}

/// The issue at the current position is taken up (counted) and nothing is pending.
pub open spec fn taken_up(s: RepoImportV) -> bool {
    &&& s.total == s.next + 1
    &&& s.pending is None
    &&& s.next < s.issues.len()
    &&& s.issues.len() < usize::MAX
    &&& s.imported + s.skipped + s.planned <= s.next
    &&& s.items.len() == s.imported + s.skipped + s.planned
}

proof fn lemma_step_ready_fits(s: RepoImportV, index: nat, title: Seq<char>, key: Seq<char>, m: Option<u64>)
    requires
        taken_up(s),
        index == s.next,
        ready(s, index, title, key, m).1 is Some,
    ensures
        action_fits(ready(s, index, title, key, m).0, ready(s, index, title, key, m).1->0),
{
}

/// Idempotency: the importer asks to create an issue only when the log does not record its
/// key, and the issue it asks for is the one at the pending position, under that key.
pub proof fn law_logged_issues_are_not_created(s: RepoImportV, log: Map<Seq<char>, JsonV>)
    requires
        well_formed(s),
        s.pending is None,
    ensures
        run_from(s, log).1 is CreateIssue ==> (run_from(s, log).0.pending matches Some(p)
            && !log.dom().contains(p.key) && p.key == issue_key(
            s.owner,
            s.repo,
            s.issues[p.index as int],
        ) && p.index < s.issues.len()),
    decreases s.issues.len() - s.next,
{
    if s.next < s.issues.len() {
        lemma_step(s, log);
        let (s2, a) = step(s, log);
        if a is None {
            law_logged_issues_are_not_created(s2, log);
        }
    }
}

/// The same holds once a milestone listing arrives, for an issue whose key the log did not
/// record when it was taken up.
pub proof fn law_logged_issues_are_not_created_after_milestones(
    s: RepoImportV,
    log: Map<Seq<char>, JsonV>,
    listing: JsonV,
)
    requires
        awaits_milestones(s),
        !log.dom().contains(s.pending->0.key),
        s.pending->0.key == issue_key(s.owner, s.repo, s.issues[s.pending->0.index as int]),
    ensures
        after_milestones(s, log, listing) matches Ok((s2, a)) ==> (a is CreateIssue ==> (
        s2.pending matches Some(p) && !log.dom().contains(p.key) && p.key == issue_key(
            s.owner,
            s.repo,
            s.issues[p.index as int],
        ))),
{
    let p = s.pending->0;
    match spec_resolve_milestone(s.issues[p.index as int].milestone->0, listing, s.owner, s.repo) {
        Err(_) => {},
        Ok(m) => {
            let s1 = RepoImportV { pending: None, ..s };
            let (s2, a) = ready(s1, p.index, p.title, p.key, m);
            if a is None {
                assert(well_formed(s2));
                law_logged_issues_are_not_created(s2, log);
            }
        },
    }
}

/// A created issue is recorded in the log under its key, and the log gains no other key and
/// loses none.
pub proof fn law_created_issue_is_logged(
    s: RepoImportV,
    log: Map<Seq<char>, JsonV>,
    response: JsonV,
    now: Seq<char>,
)
    requires
        awaits_creation(s),
    ensures
        log_after_created(s, log, response, now).dom() == log.dom().insert(s.pending->0.key),
{
}

/// A dry run never asks for an issue to be created.
pub proof fn law_dry_run_creates_nothing(s: RepoImportV, log: Map<Seq<char>, JsonV>)
    requires
        well_formed(s),
        s.pending is None,
        s.dry_run,
    ensures
        !(run_from(s, log).1 is CreateIssue),
    decreases s.issues.len() - s.next,
{
    if s.next < s.issues.len() {
        lemma_step(s, log);
        let (s2, a) = step(s, log);
        if a is None {
            law_dry_run_creates_nothing(s2, log);
        }
    }
}

/// An issue with a non-blank title.
pub open spec fn titled(issue: IssueItem) -> bool {
    trim(issue.title@).len() > 0
}

/// The number of issues with a title from position `from` on.
pub open spec fn titled_count(issues: Seq<IssueItem>, from: int) -> nat
    decreases issues.len() - from,
{
    if from < 0 || from >= issues.len() {
        0
    } else {
        (if titled(issues[from]) {
            1nat
        } else {
            0nat
        }) + titled_count(issues, from + 1)
    }
}

proof fn lemma_skip_item_status(index: nat, title: Seq<char>, status: Seq<char>, key: Seq<char>)
    ensures
        field_str(skip_item(index, title, status, key), "status"@) == Some(status),
{
    reveal_strlit("status");
    reveal_strlit("index");
    reveal_strlit("title");
    let f = seq![
        ("index"@, JsonV::UInt((index + 1) as u64)),
        ("title"@, JsonV::Str(title)),
        ("status"@, JsonV::Str(status)),
        ("key"@, JsonV::Str(key)),
    ];
    assert(skip_item(index, title, status, key) == JsonV::Object(f));
    assert("index"@.len() != "status"@.len());
    assert("title"@.len() != "status"@.len());
    assert(f[0].0 != "status"@);
    let f1 = f.drop_first();
    assert(f1[0].0 != "status"@);
    let f2 = f1.drop_first();
    assert(f2[0].0 == "status"@);
    assert(crate::json::lookup(f2, "status"@) == Some(JsonV::Str(status)));
    assert(crate::json::lookup(f1, "status"@) == Some(JsonV::Str(status)));
    assert(crate::json::lookup(f, "status"@) == Some(JsonV::Str(status)));
}

/// Re-running an import whose issues with a title are all recorded in the log creates nothing
/// and asks for nothing: each of them is reported as already imported, and nothing else is
/// reported.
pub proof fn law_rerun_skips_everything(s: RepoImportV, log: Map<Seq<char>, JsonV>)
    requires
        well_formed(s),
        s.pending is None,
        forall|i: int|
            s.next <= i < s.issues.len() && titled(#[trigger] s.issues[i]) ==> log.dom().contains(
                issue_key(s.owner, s.repo, s.issues[i]),
            ),
    ensures
        run_from(s, log).1 is Finish,
        run_from(s, log).0.imported == s.imported,
        run_from(s, log).0.planned == s.planned,
        run_from(s, log).0.skipped == s.skipped + titled_count(s.issues, s.next as int),
        run_from(s, log).0.items.len() == s.items.len() + titled_count(s.issues, s.next as int),
        forall|k: int|
            s.items.len() <= k < run_from(s, log).0.items.len() ==> field_str(
                #[trigger] run_from(s, log).0.items[k],
                "status"@,
            ) == Some("already_imported"@),
        forall|k: int| 0 <= k < s.items.len() ==> #[trigger] run_from(s, log).0.items[k] == s.items[k],
    decreases s.issues.len() - s.next,
{
    if s.next < s.issues.len() {
        lemma_step(s, log);
        let (s2, a) = step(s, log);
        law_rerun_skips_everything(s2, log);
        let f = run_from(s2, log).0;
        if titled(s.issues[s.next as int]) {
            assert(s2.items.len() == s.items.len() + 1);
            let item = s2.items[s.items.len() as int];
            lemma_skip_item_status(
                s.next,
                trim(s.issues[s.next as int].title@),
                "already_imported"@,
                issue_key(s.owner, s.repo, s.issues[s.next as int]),
            );
            assert(item == skip_item(
                s.next,
                trim(s.issues[s.next as int].title@),
                "already_imported"@,
                issue_key(s.owner, s.repo, s.issues[s.next as int]),
            ));
            assert(field_str(item, "status"@) == Some("already_imported"@));
        }
    }
}

/// What the log holds at a state of a real run: the key of every issue taken up before the
/// current position that was to be created, and a pending issue under its own key.
pub open spec fn logged_so_far(s: RepoImportV, log: Map<Seq<char>, JsonV>) -> bool {
    &&& forall|i: int|
        0 <= i < s.next && !s.dry_run && titled(#[trigger] s.issues[i]) && !(s.skip_existing
            && s.existing.contains(unicode_lower(trim(s.issues[i].title@)))) ==> log.dom().contains(
            issue_key(s.owner, s.repo, s.issues[i]),
        )
    &&& s.pending matches Some(p) ==> p.key == issue_key(s.owner, s.repo, s.issues[p.index as int])
}

proof fn lemma_run_from_logged(s: RepoImportV, log: Map<Seq<char>, JsonV>)
    requires
        well_formed(s),
        s.pending is None,
        logged_so_far(s, log),
    ensures
        logged_so_far(run_from(s, log).0, log),
        same_setup(s, run_from(s, log).0),
    decreases s.issues.len() - s.next,
{
    if s.next < s.issues.len() {
        lemma_step(s, log);
        let (s2, a) = step(s, log);
        assert(logged_so_far(s2, log)) by {
            assert forall|i: int|
                0 <= i < s2.next && !s2.dry_run && titled(#[trigger] s2.issues[i]) && !(s2.skip_existing
                    && s2.existing.contains(unicode_lower(trim(s2.issues[i].title@)))) implies log.dom().contains(
                issue_key(s2.owner, s2.repo, s2.issues[i]),
            ) by {
                if i < s.next {
                } else {
                    assert(i == s.next);
                }
            }
        }
        if a is None {
            lemma_run_from_logged(s2, log);
        }
    }
}

/// Through a whole run, the log keeps up with the issues taken up: starting from a state where
/// it does, going on (`run_from`), going on after a milestone listing, and going on after a
/// creation (whose log gains the created key) each lead to a state where it does. A run that
/// finishes has thus logged every issue with a title that was to be created (every one when
/// existing issues are not skipped), so a second run over the same issues and log creates
/// nothing (`law_rerun_skips_everything`).
pub proof fn law_run_logs_created_issues(
    s: RepoImportV,
    log: Map<Seq<char>, JsonV>,
    listing: JsonV,
    response: JsonV,
    now: Seq<char>,
)
    ensures
        well_formed(s) && s.pending is None && logged_so_far(s, log) ==> logged_so_far(
            run_from(s, log).0,
            log,
        ),
        awaits_milestones(s) && logged_so_far(s, log) ==> (after_milestones(s, log, listing) matches Ok(
            (s2, a),
        ) ==> logged_so_far(s2, log)),
        awaits_creation(s) && logged_so_far(s, log) ==> logged_so_far(
            after_created(s, log_after_created(s, log, response, now), response).0,
            log_after_created(s, log, response, now),
        ),
        forall|r: JsonV|
            action_fits(s, RepoActionV::Finish(r)) && logged_so_far(s, log) && !s.dry_run
                && !s.skip_existing ==> forall|i: int|
                0 <= i < s.issues.len() && titled(#[trigger] s.issues[i]) ==> log.dom().contains(
                    issue_key(s.owner, s.repo, s.issues[i]),
                ),
{
    if well_formed(s) && s.pending is None && logged_so_far(s, log) {
        lemma_run_from_logged(s, log);
    }
    if awaits_milestones(s) && logged_so_far(s, log) {
        let p = s.pending->0;
        match spec_resolve_milestone(s.issues[p.index as int].milestone->0, listing, s.owner, s.repo) {
            Err(_) => {},
            Ok(m) => {
                let s1 = RepoImportV { pending: None, ..s };
                let (s2, a) = ready(s1, p.index, p.title, p.key, m);
                if a is None {
                    assert(well_formed(s2));
                    assert(logged_so_far(s2, log)) by {
                        assert forall|i: int|
                            0 <= i < s2.next && !s2.dry_run && titled(#[trigger] s2.issues[i])
                                && !(s2.skip_existing && s2.existing.contains(
                                unicode_lower(trim(s2.issues[i].title@)),
                            )) implies log.dom().contains(issue_key(s2.owner, s2.repo, s2.issues[i])) by {}
                    }
                    lemma_run_from_logged(s2, log);
                }
            },
        }
    }
    if awaits_creation(s) && logged_so_far(s, log) {
        let p = s.pending->0;
        let log2 = log_after_created(s, log, response, now);
        let s2 = RepoImportV {
            imported: s.imported + 1,
            items: s.items.push(
                created_item(
                    p.index,
                    p.title,
                    field_u64(response, "number"@),
                    or_empty(field_str(response, "html_url"@)),
                ),
            ),
            next: p.index + 1,
            pending: None,
            ..s
        };
        assert(well_formed(s2));
        assert(logged_so_far(s2, log2)) by {
            assert forall|i: int|
                0 <= i < s2.next && !s2.dry_run && titled(#[trigger] s2.issues[i]) && !(s2.skip_existing
                    && s2.existing.contains(unicode_lower(trim(s2.issues[i].title@)))) implies log2.dom().contains(
                issue_key(s2.owner, s2.repo, s2.issues[i]),
            ) by {
                if i < s.next {
                    assert(log.dom().contains(issue_key(s.owner, s.repo, s.issues[i])));
                } else {
                    assert(i == p.index);
                }
            }
        }
        lemma_run_from_logged(s2, log2);
    }
}

/// With existing issues skipped, an issue not in the log whose lower-cased title the
/// repository already has is reported as already existing, counted as skipped, and neither
/// created nor logged.
pub proof fn law_existing_titles_are_skipped(s: RepoImportV, log: Map<Seq<char>, JsonV>)
    requires
        well_formed(s),
        s.pending is None,
        s.next < s.issues.len(),
        titled(s.issues[s.next as int]),
        !log.dom().contains(issue_key(s.owner, s.repo, s.issues[s.next as int])),
        s.skip_existing,
        s.existing.contains(unicode_lower(trim(s.issues[s.next as int].title@))),
    ensures
        step(s, log).1 is None,
        step(s, log).0.next == s.next + 1,
        step(s, log).0.skipped == s.skipped + 1,
        step(s, log).0.imported == s.imported,
        step(s, log).0.planned == s.planned,
        step(s, log).0.items == s.items.push(
            skip_item(
                s.next,
                trim(s.issues[s.next as int].title@),
                "already_exists"@,
                issue_key(s.owner, s.repo, s.issues[s.next as int]),
            ),
        ),
{
}

/// The search for a source's open issues, or for the issues its filter selects.
pub open spec fn spec_source_query(o: Seq<char>, n: Seq<char>, filter: Seq<char>) -> Seq<char> {
    if is_blank(filter) {
        "repo:"@ + o + "/"@ + n + " is:issue state:open"@
    } else {
        "repo:"@ + o + "/"@ + n + " is:issue "@ + filter
    }
}

/// The repository a source names and the search for its issues.
pub fn source_query(s: &SourceConfig) -> (r: Result<(String, String, String), Error>)
    ensures
        match spec_parse_repo(s.repo@) {
            Some((o, n)) => r is Ok && r->Ok_0.0@ == o && r->Ok_0.1@ == n && r->Ok_0.2@
                == spec_source_query(o, n, s.filter@),
            None => r is Err && r->Err_0@ == err(
                ErrorCode::InvalidInput,
                crate::importer::bad_repo_message(s.repo@),
            ),
        },
{
    let (o, n) = match parse_repo(s.repo.as_str()) {
        Ok(x) => x,
        Err(e) => {
            return Err(e);
        },
    };
    let mut q = concat3("repo:", o.as_str(), "/");
    push_str(&mut q, n.as_str());
    if is_blank_str(s.filter.as_str()) {
        push_str(&mut q, " is:issue state:open");
    } else {
        push_str(&mut q, " is:issue ");
        push_str(&mut q, s.filter.as_str());
    }
    Ok((o, n, q))
}

/// The items of a search answer; none when it has no `items` array.
pub open spec fn search_items(res: JsonV) -> Seq<JsonV> {
    match field_array(res, "items"@) {
        Some(a) => a,
        None => Seq::empty(),
    }
}

/// The names of the labels of a search item, in order, skipping labels without a name.
pub open spec fn label_names_in(labels: Seq<JsonV>) -> Seq<Seq<char>>
    decreases labels.len(),
{
    if labels.len() == 0 {
        Seq::empty()
    } else {
        let init = label_names_in(labels.drop_last());
        match field_str(labels.last(), "name"@) {
            Some(n) => init.push(n),
            None => init,
        }
    }
}

pub open spec fn label_names(item: JsonV) -> Seq<Seq<char>> {
    match field_array(item, "labels"@) {
        Some(a) => label_names_in(a),
        None => Seq::empty(),
    }
}

/// `it` is the issue that the search item `item` of `owner/repo` describes.
pub open spec fn searched_issue(it: IssueItem, owner: Seq<char>, repo: Seq<char>, item: JsonV) -> bool {
    &&& it.title@ == or_empty(field_str(item, "title"@))
    &&& crate::error::ostr(it.body) == field_str(item, "body"@)
    &&& match field_u64(item, "number"@) {
        Some(n) => it.id is Some && it.id->0@ == owner + "/"@ + repo + "#"@ + crate::text::decimal(
            n as nat,
        ),
        None => it.id is None,
    }
    &&& if label_names(item).len() == 0 {
        it.labels is None
    } else {
        it.labels is Some && it.labels->0.deep_view() == label_names(item)
    }
    &&& it.milestone is None
    &&& it.assignees is None
    &&& it.state is None
}

fn field_array_of<'a>(j: &'a Json, key: &str) -> (r: Option<&'a Vec<Json>>)
    ensures
        match r {
            Some(a) => field_array(j@, key@) == Some(json_seq_view(a@)),
            None => field_array(j@, key@) is None,
        },
{
    match j.get(key) {
        Some(v) => v.as_array(),
        None => None,
    }
}

fn label_names_of(item: &Json) -> (r: Vec<String>)
    ensures
        r.deep_view() == label_names(item@),
{
    let mut out: Vec<String> = Vec::new();
    match field_array_of(item, "labels") {
        Some(arr) => {
            proof {
                lemma_seq_view(arr@);
            }
            let ghost ls = json_seq_view(arr@);
            let mut i: usize = 0;
            while i < arr.len()
                invariant
                    i <= arr.len(),
                    ls == json_seq_view(arr@),
                    ls.len() == arr.len(),
                    forall|k: int| 0 <= k < arr.len() ==> #[trigger] ls[k] == json_view(arr@[k]),
                    out.deep_view() == label_names_in(ls.take(i as int)),
                decreases arr.len() - i,
            {
                assert(ls.take(i + 1).drop_last() == ls.take(i as int));
                assert(ls.take(i + 1).last() == ls[i as int]);
                match arr[i].str_field("name") {
                    Some(n) => out.push(n),
                    None => {},
                }
                assert(out.deep_view() =~= label_names_in(ls.take(i + 1)));
                i = i + 1;
            }
            assert(ls.take(ls.len() as int) == ls);
        },
        None => {},
    }
    out
}

fn searched_issue_of(owner: &str, repo: &str, item: &Json) -> (r: IssueItem)
    ensures
        searched_issue(r, owner@, repo@, item@),
{
    let title = match item.str_field("title") {
        Some(t) => t,
        None => String::new(),
    };
    let body = item.str_field("body");
    let id = match item.u64_field("number") {
        Some(n) => {
            let mut k = concat3(owner, "/", repo);
            push_str(&mut k, "#");
            push_str(&mut k, crate::text::decimal_string(n).as_str());
            Some(k)
        },
        None => None,
    };
    let labels = label_names_of(item);
    let labels = if labels.len() == 0 {
        None
    } else {
        Some(labels)
    };
    IssueItem { title, body, labels, milestone: None, assignees: None, id, state: None }
}

/// The issues that a search answer for `owner/repo` lists.
pub fn issues_from_search(owner: &str, repo: &str, result: &Json) -> (r: Vec<IssueItem>)
    ensures
        r@.len() == search_items(result@).len(),
        forall|i: int|
            0 <= i < r@.len() ==> searched_issue(#[trigger] r@[i], owner@, repo@, search_items(result@)[i]),
{
    let mut out: Vec<IssueItem> = Vec::new();
    match field_array_of(result, "items") {
        Some(arr) => {
            proof {
                lemma_seq_view(arr@);
            }
            let mut i: usize = 0;
            while i < arr.len()
                invariant
                    i <= arr.len(),
                    search_items(result@) == json_seq_view(arr@),
                    json_seq_view(arr@).len() == arr.len(),
                    forall|k: int| 0 <= k < arr.len() ==> #[trigger] json_seq_view(arr@)[k] == json_view(arr@[k]),
                    out@.len() == i,
                    forall|k: int|
                        0 <= k < i ==> searched_issue(#[trigger] out@[k], owner@, repo@, search_items(result@)[k]),
                decreases arr.len() - i,
            {
                out.push(searched_issue_of(owner, repo, &arr[i]));
                i = i + 1;
            }
        },
        None => {},
    }
    out
}

/// Where the issues go.
#[derive(Debug)]
pub enum ImportMode {
    /// Import these issues into the repository `target`.
    ToRepo { issues: Vec<IssueItem>, target: String },
    /// Fetch the issues that `sources` find, add them after `issues`, and import all of them
    /// into the repository `target`.
    ToRepoWithSources { issues: Vec<IssueItem>, sources: Vec<SourceConfig>, target: String },
    /// Import what `sources` find into the inbox directory `inbox`.
    ToInbox { sources: Vec<SourceConfig>, inbox: String },
}

/// Where the issues of the parsed input go, given the repository named on the command line.
pub open spec fn spec_mode(repo: Option<String>, parsed: ParsedInput) -> Result<ImportMode, ErrorV> {
    match parsed {
        ParsedInput::Issues(issues) => match repo {
            Some(r) => Ok(ImportMode::ToRepo { issues, target: r }),
            None => Err(
                err(
                    ErrorCode::InvalidInput,
                    "A target GitHub repository is required. Pass --repo <owner/repo>."@,
                ),
            ),
        },
        ParsedInput::Batch(b) => {
            let target = match repo {
                Some(r) => Some(r),
                None => b.target_repo,
            };
            match target {
                Some(t) => if b.sources.len() > 0 {
                    Ok(ImportMode::ToRepoWithSources { issues: b.issues, sources: b.sources, target: t })
                } else {
                    Ok(ImportMode::ToRepo { issues: b.issues, target: t })
                },
                None => match b.inbox {
                    Some(i) => Ok(ImportMode::ToInbox { sources: b.sources, inbox: i }),
                    None => Err(
                        err(
                            ErrorCode::InvalidInput,
                            "Either --repo <owner/repo> or an 'inbox' directory in config must be specified."@,
                        ),
                    ),
                },
            }
        },
    }
}

/// Decides where the issues of the parsed input go.
pub fn run(args: &ImportArgs, parsed: ParsedInput) -> (r: Result<ImportMode, Error>)
    ensures
        match spec_mode(args.repo, parsed) {
            Ok(m) => r == Ok::<ImportMode, Error>(m),
            Err(e) => r is Err && r->Err_0@ == e,
        },
{
    let repo: Option<String> = match &args.repo {
        Some(r) => Some(r.clone()),
        None => None,
    };
    match parsed {
        ParsedInput::Issues(issues) => match repo {
            Some(r) => Ok(ImportMode::ToRepo { issues, target: r }),
            None => Err(
                Error::invalid(
                    owned("A target GitHub repository is required. Pass --repo <owner/repo>."),
                ),
            ),
        },
        ParsedInput::Batch(b) => {
            let target = match repo {
                Some(r) => Some(r),
                None => b.target_repo,
            };
            match target {
                Some(t) => if b.sources.len() > 0 {
                    Ok(ImportMode::ToRepoWithSources { issues: b.issues, sources: b.sources, target: t })
                } else {
                    Ok(ImportMode::ToRepo { issues: b.issues, target: t })
                },
                None => match b.inbox {
                    Some(i) => Ok(ImportMode::ToInbox { sources: b.sources, inbox: i }),
                    None => Err(
                        Error::invalid(
                            owned(
                                "Either --repo <owner/repo> or an 'inbox' directory in config must be specified.",
                            ),
                        ),
                    ),
                },
            }
        },
    }
}

/// The input named on the command line: `--file`, else the positional path, else `--config`.
pub fn explicit_input(args: &ImportArgs) -> (r: Option<String>)
    ensures
        r == match args.file {
            Some(f) => Some(f),
            None => match args.path {
                Some(p) => Some(p),
                None => args.config,
            },
        },
{
    match &args.file {
        Some(f) => Some(f.clone()),
        None => match &args.path {
            Some(p) => Some(p.clone()),
            None => match &args.config {
                Some(c) => Some(c.clone()),
                None => None,
            },
        },
    }
}

/// The input file to import from: the one named, which must exist; else the default
/// configuration file if it exists; else `config.yaml` in the working directory if it exists.
pub open spec fn spec_input_path(
    explicit: Option<Seq<char>>,
    explicit_exists: bool,
    default_config: Seq<char>,
    default_exists: bool,
    local_exists: bool,
) -> Result<Seq<char>, ErrorV> {
    match explicit {
        Some(p) => if explicit_exists {
            Ok(p)
        } else {
            Err(err(ErrorCode::InvalidInput, "File '"@ + p + "' not found."@))
        },
        None => if default_exists {
            Ok(default_config)
        } else if local_exists {
            Ok("config.yaml"@)
        } else {
            Err(
                err(
                    ErrorCode::InvalidInput,
                    "No issues file or config found. Specify a path, --file <PATH>, or --config <PATH>."@,
                ),
            )
        },
    }
}

/// Picks the input file, given which of the candidate files exist.
pub fn resolve_input_path(
    explicit: Option<&str>,
    explicit_exists: bool,
    default_config: &str,
    default_exists: bool,
    local_exists: bool,
) -> (r: Result<String, Error>)
    ensures
        match spec_input_path(
            crate::account::oview(explicit),
            explicit_exists,
            default_config@,
            default_exists,
            local_exists,
        ) {
            Ok(p) => r is Ok && r->Ok_0@ == p,
            Err(e) => r is Err && r->Err_0@ == e,
        },
{
    match explicit {
        Some(p) => if explicit_exists {
            Ok(owned(p))
        } else {
            Err(Error::invalid(concat3("File '", p, "' not found.")))
        },
        None => if default_exists {
            Ok(owned(default_config))
        } else if local_exists {
            Ok(owned("config.yaml"))
        } else {
            Err(
                Error::invalid(
                    owned(
                        "No issues file or config found. Specify a path, --file <PATH>, or --config <PATH>.",
                    ),
                ),
            )
        },
    }
}


/// The issue-creation payload carries the issue: its `title` is the title given, and `body`,
/// `labels`, `assignees` and `milestone` are present exactly when the issue has them (the
/// milestone when its number is known), each with the issue's value.
pub proof fn law_payload_carries_the_issue(title: Seq<char>, issue: IssueItem, m: Option<u64>)
    ensures
        jget(payload(title, issue, m), "title"@) == Some(JsonV::Str(title)),
        jget(payload(title, issue, m), "body"@) == match issue.body {
            Some(b) => Some(JsonV::Str(b@)),
            None => None::<JsonV>,
        },
        jget(payload(title, issue, m), "labels"@) == match issue.labels {
            Some(l) => Some(str_array(l@)),
            None => None::<JsonV>,
        },
        jget(payload(title, issue, m), "assignees"@) == match issue.assignees {
            Some(a) => Some(str_array(a@)),
            None => None::<JsonV>,
        },
        jget(payload(title, issue, m), "milestone"@) == match m {
            Some(n) => Some(JsonV::UInt(n)),
            None => None::<JsonV>,
        },
{
    reveal_strlit("title");
    reveal_strlit("body");
    reveal_strlit("labels");
    reveal_strlit("assignees");
    reveal_strlit("milestone");
    assert("title"@ != "body"@ && "title"@ != "labels"@ && "title"@ != "assignees"@
        && "title"@ != "milestone"@) by {
        assert("title"@.len() == 5 && "body"@.len() == 4 && "labels"@.len() == 6);
        assert("title"@[0] != "assignees"@[0] && "title"@[0] != "milestone"@[0]);
    }
    assert("body"@ != "labels"@ && "body"@ != "assignees"@ && "body"@ != "milestone"@) by {
        assert("body"@[0] != "labels"@[0] && "body"@[0] != "assignees"@[0] && "body"@[0] != "milestone"@[0]);
    }
    assert("labels"@ != "assignees"@ && "labels"@ != "milestone"@) by {
        assert("labels"@[0] != "assignees"@[0] && "labels"@[0] != "milestone"@[0]);
    }
    assert("assignees"@ != "milestone"@) by {
        assert("assignees"@[0] != "milestone"@[0]);
    }
    let f0 = seq![("title"@, JsonV::Str(title))];
    let f1 = with_body(f0, issue);
    let f2 = with_labels(f1, issue);
    let f3 = with_assignees(f2, issue);
    let f4 = with_milestone(f3, m);
    assert(f0 =~= Seq::<(Seq<char>, JsonV)>::empty().push(("title"@, JsonV::Str(title))));
    let e = Seq::<(Seq<char>, JsonV)>::empty();
    let ks = seq!["title"@, "body"@, "labels"@, "assignees"@, "milestone"@];
    assert forall|q: Seq<char>| ks.contains(q) implies lookup(f0, q) == (if q == "title"@ {
        Some(JsonV::Str(title))
    } else {
        None::<JsonV>
    }) by {
        lemma_lookup_push(e, "title"@, JsonV::Str(title), q);
    }
    assert forall|q: Seq<char>| ks.contains(q) implies lookup(f1, q) == (if q == "title"@ {
        Some(JsonV::Str(title))
    } else if q == "body"@ {
        match issue.body {
            Some(b) => Some(JsonV::Str(b@)),
            None => None::<JsonV>,
        }
    } else {
        None::<JsonV>
    }) by {
        match issue.body {
            Some(b) => lemma_lookup_push(f0, "body"@, JsonV::Str(b@), q),
            None => {},
        }
    }
    assert forall|q: Seq<char>| ks.contains(q) && q != "labels"@ implies lookup(f2, q) == lookup(f1, q) by {
        match issue.labels {
            Some(l) => lemma_lookup_push(f1, "labels"@, str_array(l@), q),
            None => {},
        }
    }
    match issue.labels {
        Some(l) => lemma_lookup_push(f1, "labels"@, str_array(l@), "labels"@),
        None => {},
    }
    assert forall|q: Seq<char>| ks.contains(q) && q != "assignees"@ implies lookup(f3, q) == lookup(f2, q) by {
        match issue.assignees {
            Some(a) => lemma_lookup_push(f2, "assignees"@, str_array(a@), q),
            None => {},
        }
    }
    match issue.assignees {
        Some(a) => lemma_lookup_push(f2, "assignees"@, str_array(a@), "assignees"@),
        None => {},
    }
    assert forall|q: Seq<char>| ks.contains(q) && q != "milestone"@ implies lookup(f4, q) == lookup(f3, q) by {
        match m {
            Some(n) => lemma_lookup_push(f3, "milestone"@, JsonV::UInt(n), q),
            None => {},
        }
    }
    match m {
        Some(n) => lemma_lookup_push(f3, "milestone"@, JsonV::UInt(n), "milestone"@),
        None => {},
    }
    assert(ks.contains("title"@) && ks.contains("body"@) && ks.contains("labels"@)
        && ks.contains("assignees"@) && ks.contains("milestone"@)) by {
        assert(ks[0] == "title"@ && ks[1] == "body"@ && ks[2] == "labels"@ && ks[3] == "assignees"@
            && ks[4] == "milestone"@);
    }
}


/// The issue the importer asks to be created carries the pending issue's fields: the trimmed
/// title, and its body, labels and assignees exactly when it has them, and the resolved
/// milestone number.
pub open spec fn creates_pending_issue(s2: RepoImportV, p: JsonV) -> bool {
    s2.pending matches Some(q) && {
        let issue = s2.issues[q.index as int];
        &&& jget(p, "title"@) == Some(JsonV::Str(trim(issue.title@)))
        &&& jget(p, "body"@) == match issue.body {
            Some(b) => Some(JsonV::Str(b@)),
            None => None::<JsonV>,
        }
        &&& jget(p, "labels"@) == match issue.labels {
            Some(l) => Some(str_array(l@)),
            None => None::<JsonV>,
        }
        &&& jget(p, "assignees"@) == match issue.assignees {
            Some(a) => Some(str_array(a@)),
            None => None::<JsonV>,
        }
        &&& jget(p, "milestone"@) == match q.milestone {
            Some(n) => Some(JsonV::UInt(n)),
            None => None::<JsonV>,
        }
    }
}

/// Whenever the importer asks for an issue to be created, going on from any state or after a
/// milestone listing for an issue it took up, the payload carries that issue's title, body,
/// labels, assignees and milestone.
pub proof fn law_created_issue_carries_its_fields(
    s: RepoImportV,
    log: Map<Seq<char>, JsonV>,
    listing: JsonV,
)
    ensures
        well_formed(s) && s.pending is None ==> (run_from(s, log).1 matches RepoActionV::CreateIssue(
            p,
        ) ==> creates_pending_issue(run_from(s, log).0, p)),
        well_formed(s) && s.pending is None ==> (run_from(s, log).1 is ListMilestones ==> (run_from(
            s,
            log,
        ).0.pending matches Some(q) && q.title == trim(run_from(s, log).0.issues[q.index as int].title@))),
        awaits_milestones(s) && s.pending->0.title == trim(s.issues[s.pending->0.index as int].title@)
            ==> (after_milestones(s, log, listing) matches Ok(
            (s2, RepoActionV::CreateIssue(p)),
        ) ==> creates_pending_issue(s2, p)),
    decreases s.issues.len() - s.next,
{
    if well_formed(s) && s.pending is None && s.next < s.issues.len() {
        lemma_step(s, log);
        let (s2, a) = step(s, log);
        match a {
            Some(RepoActionV::CreateIssue(p)) => {
                let q = s2.pending->0;
                law_payload_carries_the_issue(q.title, s.issues[q.index as int], q.milestone);
            },
            Some(_) => {},
            None => {
                law_created_issue_carries_its_fields(s2, log, listing);
            },
        }
    }
    if awaits_milestones(s) {
        let p = s.pending->0;
        match spec_resolve_milestone(s.issues[p.index as int].milestone->0, listing, s.owner, s.repo) {
            Err(_) => {},
            Ok(m) => {
                let s1 = RepoImportV { pending: None, ..s };
                let (s2, a) = ready(s1, p.index, p.title, p.key, m);
                if a is None {
                    assert(well_formed(s2));
                    law_created_issue_carries_its_fields(s2, log, listing);
                } else {
                    law_payload_carries_the_issue(p.title, s.issues[p.index as int], m);
                }
            },
        }
    }
}

} // verus!
