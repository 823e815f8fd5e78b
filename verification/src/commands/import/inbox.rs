//! Importing the issues that sources' searches find as notes in a local inbox directory, one
//! file per issue holding its URL.
use vstd::prelude::*;

use crate::commands::import::{search_items, source_query, spec_source_query};
use crate::error::{Error, ErrorV, err};
use crate::importer::{ImportLog, SourceConfig, imported_entry, spec_parse_repo};
use crate::json::{
    Json, JsonV, field_str, field_u64, json_fields_view, json_seq_view, json_view, jstr_of,
    lemma_fields_view, lemma_seq_view, or_empty,
};
use crate::text::{concat, concat3, decimal, decimal_string, owned, push_str};

verus! {

/// An issue whose note is being written.
pub struct Note {
    pub number: u64,
    pub title: String,
    pub url: String,
    pub key: String,
}

pub struct NoteV {
    pub number: u64,
    pub title: Seq<char>,
    pub url: Seq<char>,
    pub key: Seq<char>,
}

/// An import of the issues that the sources' searches find into the inbox directory.
pub struct InboxImport {
    inbox: String,
    dry_run: bool,
    log_path: String,
    sources: Vec<SourceConfig>,
    next_source: usize,
    found: Vec<Json>,
    next_item: usize,
    total: u64,
    imported: u64,
    skipped: u64,
    items: Vec<Json>,
    pending: Option<Note>,
}

/// The mathematical value of an [`InboxImport`].
pub struct InboxImportV {
    pub inbox: Seq<char>,
    pub dry_run: bool,
    pub log_path: Seq<char>,
    pub sources: Seq<SourceConfig>,
    pub next_source: nat,
    pub found: Seq<JsonV>,
    pub next_item: nat,
    pub total: u64,
    pub imported: u64,
    pub skipped: u64,
    pub items: Seq<JsonV>,
    pub pending: Option<NoteV>,
}

pub open spec fn note_view(n: Option<Note>) -> Option<NoteV> {
    match n {
        Some(n) => Some(NoteV { number: n.number, title: n.title@, url: n.url@, key: n.key@ }),
        None => None,
    }
}

impl View for InboxImport {
    type V = InboxImportV;

    closed spec fn view(&self) -> InboxImportV {
        InboxImportV {
            inbox: self.inbox@,
            dry_run: self.dry_run,
            log_path: self.log_path@,
            sources: self.sources@,
            next_source: self.next_source as nat,
            found: json_seq_view(self.found@),
            next_item: self.next_item as nat,
            total: self.total,
            imported: self.imported,
            skipped: self.skipped,
            items: json_seq_view(self.items@),
            pending: note_view(self.pending),
        }
    }
}

/// What the inbox import asks for next.
pub enum InboxAction {
    /// Run this issue search.
    Search(String),
    /// Write a note file with this name, in the inbox, holding these contents.
    WriteNote { file_name: String, contents: String },
    /// Nothing more: print this report.
    Finish(Json),
}

pub enum InboxActionV {
    Search(Seq<char>),
    WriteNote { file_name: Seq<char>, contents: Seq<char> },
    Finish(JsonV),
}

impl View for InboxAction {
    type V = InboxActionV;

    open spec fn view(&self) -> InboxActionV {
        match self {
            InboxAction::Search(q) => InboxActionV::Search(q@),
            InboxAction::WriteNote { file_name, contents } => InboxActionV::WriteNote {
                file_name: file_name@,
                contents: contents@,
            },
            InboxAction::Finish(r) => InboxActionV::Finish(r@),
        }
    }
}

/// One more, short of the largest value.
pub open spec fn inc(n: u64) -> u64 {
    if n < u64::MAX {
        (n + 1) as u64
    } else {
        n
    }
}

/// The log key of a found issue: the source's repository as written, `#`, and the number.
pub open spec fn note_key(source_repo: Seq<char>, number: u64) -> Seq<char> {
    source_repo + "#"@ + decimal(number as nat)
}

/// The note file for an issue.
pub open spec fn note_file(number: u64) -> Seq<char> {
    "issue-"@ + decimal(number as nat) + ".md"@
}

/// The report line for a found issue already imported.
pub open spec fn skipped_note(number: u64, title: Seq<char>) -> JsonV {
    JsonV::Object(
        seq![
            ("number"@, JsonV::UInt(number)),
            ("title"@, JsonV::Str(title)),
            ("status"@, JsonV::Str("already_imported"@)),
        ],
    )
}

/// The report line for a found issue imported (or planned, in a dry run).
pub open spec fn done_note(number: u64, title: Seq<char>, url: Seq<char>, status: Seq<char>) -> JsonV {
    JsonV::Object(
        seq![
            ("number"@, JsonV::UInt(number)),
            ("title"@, JsonV::Str(title)),
            ("url"@, JsonV::Str(url)),
            ("status"@, JsonV::Str(status)),
        ],
    )
}

/// The final report.
pub open spec fn inbox_summary(s: InboxImportV) -> JsonV {
    JsonV::Object(
        seq![
            ("status"@, JsonV::Str("ok"@)),
            ("inbox"@, JsonV::Str(s.inbox)),
            ("total"@, JsonV::UInt(s.total)),
            ("imported"@, JsonV::UInt(s.imported)),
            ("skipped"@, JsonV::UInt(s.skipped)),
            ("dryRun"@, JsonV::Bool(s.dry_run)),
            ("logPath"@, JsonV::Str(s.log_path)),
            ("items"@, JsonV::Array(s.items)),
        ],
    )
}

/// Taking up the found item at the current position.
pub open spec fn take_item(s: InboxImportV, log: Map<Seq<char>, JsonV>) -> (InboxImportV, Option<
    InboxActionV,
>) {
    let item = s.found[s.next_item as int];
    let number = match field_u64(item, "number"@) {
        Some(n) => n,
        None => 0,
    };
    let title = or_empty(field_str(item, "title"@));
    let url = or_empty(field_str(item, "html_url"@));
    let key = note_key(s.sources[s.next_source - 1].repo@, number);
    let t = InboxImportV { total: inc(s.total), ..s };
    if log.dom().contains(key) {
        (
            InboxImportV {
                skipped: inc(t.skipped),
                items: t.items.push(skipped_note(number, title)),
                next_item: t.next_item + 1,
                ..t
            },
            None,
        )
    } else if !s.dry_run {
        (
            InboxImportV { pending: Some(NoteV { number, title, url, key }), ..t },
            Some(
                InboxActionV::WriteNote {
                    file_name: note_file(number),
                    contents: url + "\n"@,
                },
            ),
        )
    } else {
        (
            InboxImportV {
                imported: inc(t.imported),
                items: t.items.push(done_note(number, title, url, "planned"@)),
                next_item: t.next_item + 1,
                ..t
            },
            None,
        )
    }
}

/// Going on from the current position: the found items of the current source, then the next
/// source's search, then the report. A source that names no repository is an error.
pub open spec fn inbox_run(s: InboxImportV, log: Map<Seq<char>, JsonV>) -> Result<
    (InboxImportV, InboxActionV),
    ErrorV,
>
    decreases s.found.len() - s.next_item,
{
    if s.next_item < s.found.len() && s.next_source > 0 {
        let (s2, a) = take_item(s, log);
        match a {
            Some(x) => Ok((s2, x)),
            None => if s2.next_item > s.next_item && s2.found == s.found {
                inbox_run(s2, log)
            } else {
                Ok((s2, InboxActionV::Finish(inbox_summary(s2))))
            },
        }
    } else if s.next_source < s.sources.len() {
        let src = s.sources[s.next_source as int];
        match spec_parse_repo(src.repo@) {
            None => Err(err(crate::error::ErrorCode::InvalidInput, crate::importer::bad_repo_message(src.repo@))),
            Some((o, n)) => Ok(
                (
                    InboxImportV {
                        next_source: s.next_source + 1,
                        found: Seq::empty(),
                        next_item: 0,
                        ..s
                    },
                    InboxActionV::Search(spec_source_query(o, n, src.filter@)),
                ),
            ),
        }
    } else {
        Ok((s, InboxActionV::Finish(inbox_summary(s))))
    }
}

/// A state reachable by the inbox import.
pub open spec fn inbox_wf(s: InboxImportV) -> bool {
    &&& s.next_source <= s.sources.len()
    &&& s.next_item <= s.found.len()
    &&& s.next_source == 0 ==> s.found.len() == 0
    &&& match s.pending {
        Some(_) => s.next_item < s.found.len() && !s.dry_run && s.next_source > 0,
        None => true,
    }
}

/// What the action says about the state it leaves.
pub open spec fn inbox_fits(s: InboxImportV, a: InboxActionV) -> bool {
    &&& inbox_wf(s)
    &&& match a {
        InboxActionV::Search(_) => s.pending is None && s.next_item == 0 && s.found.len() == 0,
        InboxActionV::WriteNote { .. } => s.pending is Some,
        InboxActionV::Finish(r) => s.pending is None && r == inbox_summary(s),
    }
}

/// Going on leaves a state that fits the action asked for.
pub proof fn lemma_inbox_run(s: InboxImportV, log: Map<Seq<char>, JsonV>)
    requires
        inbox_wf(s),
        s.pending is None,
    ensures
        inbox_run(s, log) matches Ok((s2, a)) ==> inbox_fits(s2, a) && s2.sources == s.sources
            && s2.dry_run == s.dry_run,
    decreases s.found.len() - s.next_item,
{
    if s.next_item < s.found.len() && s.next_source > 0 {
        let (s2, a) = take_item(s, log);
        if a is None {
            lemma_inbox_run(s2, log);
        }
    }
}

/// The state once the search answer `result` arrives.
pub open spec fn with_found(s: InboxImportV, result: JsonV) -> InboxImportV {
    InboxImportV { found: search_items(result), next_item: 0, ..s }
}

/// The log once the pending note was written at time `now`.
pub open spec fn log_after_note(s: InboxImportV, log: Map<Seq<char>, JsonV>, now: Seq<char>) -> Map<
    Seq<char>,
    JsonV,
> {
    let p = s.pending->0;
    log.insert(p.key, imported_entry(p.key, now, Some(p.number), Some(p.url)))
}

/// The state once the pending note was written.
pub open spec fn after_note(s: InboxImportV) -> InboxImportV {
    let p = s.pending->0;
    InboxImportV {
        imported: inc(s.imported),
        items: s.items.push(done_note(p.number, p.title, p.url, "imported"@)),
        next_item: s.next_item + 1,
        pending: None,
        ..s
    }
}

fn field(k: &str, v: Json) -> (r: (String, Json))
    ensures
        r.0@ == k@,
        r.1 == v,
{
    (owned(k), v)
}

fn skipped_note_json(number: u64, title: &str) -> (r: Json)
    ensures
        r@ == skipped_note(number, title@),
{
    let mut f: Vec<(String, Json)> = Vec::new();
    f.push(field("number", Json::UInt(number)));
    f.push(field("title", jstr_of(title)));
    f.push(field("status", jstr_of("already_imported")));
    proof {
        lemma_fields_view(f@);
        assert(json_fields_view(f@) =~= match skipped_note(number, title@) {
            JsonV::Object(x) => x,
            _ => Seq::empty(),
        });
    }
    Json::Object(f)
}

fn done_note_json(number: u64, title: &str, url: &str, status: &str) -> (r: Json)
    ensures
        r@ == done_note(number, title@, url@, status@),
{
    let mut f: Vec<(String, Json)> = Vec::new();
    f.push(field("number", Json::UInt(number)));
    f.push(field("title", jstr_of(title)));
    f.push(field("url", jstr_of(url)));
    f.push(field("status", jstr_of(status)));
    proof {
        lemma_fields_view(f@);
        assert(json_fields_view(f@) =~= match done_note(number, title@, url@, status@) {
            JsonV::Object(x) => x,
            _ => Seq::empty(),
        });
    }
    Json::Object(f)
}

impl InboxImport {
    /// An import of what `sources` find into the directory `inbox`.
    pub fn new(inbox: String, sources: Vec<SourceConfig>, dry_run: bool, log_path: String) -> (r:
        InboxImport)
        ensures
            r@ == (InboxImportV {
                inbox: inbox@,
                dry_run,
                log_path: log_path@,
                sources: sources@,
                next_source: 0,
                found: Seq::empty(),
                next_item: 0,
                total: 0,
                imported: 0,
                skipped: 0,
                items: Seq::empty(),
                pending: None,
            }),
            inbox_wf(r@),
    {
        let r = InboxImport {
            inbox,
            dry_run,
            log_path,
            sources,
            next_source: 0,
            found: Vec::new(),
            next_item: 0,
            total: 0,
            imported: 0,
            skipped: 0,
            items: Vec::new(),
            pending: None,
        };
        proof {
            lemma_seq_view(Seq::<Json>::empty());
            assert(r@.found =~= Seq::<JsonV>::empty());
            assert(r@.items =~= Seq::<JsonV>::empty());
        }
        r
    }

    fn push_item(&mut self, item: Json)
        ensures
            final(self)@ == (InboxImportV { items: old(self)@.items.push(item@), ..old(self)@ }),
    {
        let ghost old_items = self.items@;
        self.items.push(item);
        proof {
            lemma_seq_view(old_items);
            lemma_seq_view(self.items@);
            assert(json_seq_view(self.items@) =~= json_seq_view(old_items).push(item@));
        }
    }

    fn summary_json(&self) -> (r: Json)
        ensures
            r@ == inbox_summary(self@),
    {
        let mut f: Vec<(String, Json)> = Vec::new();
        f.push(field("status", jstr_of("ok")));
        f.push(field("inbox", Json::Str(self.inbox.clone())));
        f.push(field("total", Json::UInt(self.total)));
        f.push(field("imported", Json::UInt(self.imported)));
        f.push(field("skipped", Json::UInt(self.skipped)));
        f.push(field("dryRun", Json::Bool(self.dry_run)));
        f.push(field("logPath", Json::Str(self.log_path.clone())));
        let mut items: Vec<Json> = Vec::new();
        let mut i: usize = 0;
        while i < self.items.len()
            invariant
                i <= self.items.len(),
                items@.len() == i,
                forall|k: int| 0 <= k < i ==> json_view(#[trigger] items@[k]) == json_view(self.items@[k]),
            decreases self.items.len() - i,
        {
            items.push(self.items[i].duplicate());
            i = i + 1;
        }
        proof {
            lemma_seq_view(items@);
            lemma_seq_view(self.items@);
            assert(json_seq_view(items@) =~= json_seq_view(self.items@));
        }
        f.push(field("items", Json::Array(items)));
        proof {
            lemma_fields_view(f@);
            assert(json_fields_view(f@) =~= match inbox_summary(self@) {
                JsonV::Object(x) => x,
                _ => Seq::empty(),
            });
        }
        Json::Object(f)
    }

    fn take_item_exec(&mut self, log: &ImportLog) -> (r: Option<InboxAction>)
        requires
            inbox_wf(old(self)@),
            old(self)@.pending is None,
            old(self)@.next_item < old(self)@.found.len(),
            old(self)@.next_source > 0,
        ensures
            (final(self)@, match r {
                Some(a) => Some(a@),
                None => None,
            }) == take_item(old(self)@, log@),
    {
        proof {
            lemma_seq_view(self.found@);
        }
        assert(self.next_item < self.found.len());
        let item = &self.found[self.next_item];
        let number = match item.u64_field("number") {
            Some(n) => n,
            None => 0,
        };
        let title = match item.str_field("title") {
            Some(t) => t,
            None => String::new(),
        };
        let url = match item.str_field("html_url") {
            Some(u) => u,
            None => String::new(),
        };
        let key = concat3(
            self.sources[self.next_source - 1].repo.as_str(),
            "#",
            decimal_string(number).as_str(),
        );
        self.total = self.total.saturating_add(1);
        if log.is_imported(key.as_str()) {
            let j = skipped_note_json(number, title.as_str());
            self.push_item(j);
            self.skipped = self.skipped.saturating_add(1);
            self.next_item = self.next_item + 1;
            return None;
        }
        if !self.dry_run {
            let mut file_name = concat("issue-", decimal_string(number).as_str());
            push_str(&mut file_name, ".md");
            let contents = concat(url.as_str(), "\n");
            self.pending = Some(Note { number, title, url, key });
            return Some(InboxAction::WriteNote { file_name, contents });
        }
        let j = done_note_json(number, title.as_str(), url.as_str(), "planned");
        self.push_item(j);
        self.imported = self.imported.saturating_add(1);
        self.next_item = self.next_item + 1;
        None
    }

    fn advance(&mut self, log: &ImportLog) -> (r: Result<InboxAction, Error>)
        requires
            inbox_wf(old(self)@),
            old(self)@.pending is None,
        ensures
            match inbox_run(old(self)@, log@) {
                Ok((s, a)) => r is Ok && final(self)@ == s && r->Ok_0@ == a,
                Err(e) => r is Err && r->Err_0@ == e,
            },
    {
        loop
            invariant
                inbox_wf(self@),
                self@.pending is None,
                inbox_run(self@, log@) == inbox_run(old(self)@, log@),
            decreases self@.found.len() - self@.next_item,
        {
            proof {
                lemma_seq_view(self.found@);
            }
            if self.next_item < self.found.len() && self.next_source > 0 {
                match self.take_item_exec(log) {
                    Some(a) => {
                        return Ok(a);
                    },
                    None => {},
                }
            } else if self.next_source < self.sources.len() {
                let q = match source_query(&self.sources[self.next_source]) {
                    Ok((_, _, q)) => q,
                    Err(e) => {
                        return Err(e);
                    },
                };
                self.next_source = self.next_source + 1;
                self.found = Vec::new();
                self.next_item = 0;
                proof {
                    lemma_seq_view(Seq::<Json>::empty());
                    assert(self@.found =~= Seq::<JsonV>::empty());
                }
                return Ok(InboxAction::Search(q));
            } else {
                return Ok(InboxAction::Finish(self.summary_json()));
            }
        }
    }

    /// Starts the import with the log as it is: asks for the first source's search, or
    /// reports when there are no sources.
    pub fn start(&mut self, log: &ImportLog) -> (r: Result<InboxAction, Error>)
        requires
            inbox_wf(old(self)@),
            old(self)@.pending is None,
        ensures
            match inbox_run(old(self)@, log@) {
                Ok((s, a)) => r is Ok && final(self)@ == s && r->Ok_0@ == a && inbox_fits(s, a),
                Err(e) => r is Err && r->Err_0@ == e,
            },
    {
        proof {
            lemma_inbox_run(self@, log@);
        }
        self.advance(log)
    }

    /// Goes on with the answer to the search asked for by the last action.
    pub fn on_search(&mut self, result: &Json, log: &ImportLog) -> (r: Result<InboxAction, Error>)
        requires
            inbox_wf(old(self)@),
            old(self)@.pending is None,
            old(self)@.next_source > 0,
        ensures
            match inbox_run(with_found(old(self)@, result@), log@) {
                Ok((s, a)) => r is Ok && final(self)@ == s && r->Ok_0@ == a && inbox_fits(s, a),
                Err(e) => r is Err && r->Err_0@ == e,
            },
    {
        let found: Vec<Json> = match result.get("items") {
            Some(v) => match v.as_array() {
                Some(a) => {
                    let mut out: Vec<Json> = Vec::new();
                    let mut i: usize = 0;
                    while i < a.len()
                        invariant
                            i <= a.len(),
                            out@.len() == i,
                            forall|k: int| 0 <= k < i ==> json_view(#[trigger] out@[k]) == json_view(a@[k]),
                        decreases a.len() - i,
                    {
                        out.push(a[i].duplicate());
                        i = i + 1;
                    }
                    proof {
                        lemma_seq_view(out@);
                        lemma_seq_view(a@);
                        assert(json_seq_view(out@) =~= json_seq_view(a@));
                    }
                    out
                },
                None => Vec::new(),
            },
            None => Vec::new(),
        };
        proof {
            lemma_seq_view(Seq::<Json>::empty());
        }
        self.found = found;
        self.next_item = 0;
        assert(self@ == with_found(old(self)@, result@));
        proof {
            lemma_inbox_run(self@, log@);
        }
        self.advance(log)
    }

    /// Goes on once the pending note was written; `now` is the time of the import, recorded in
    /// the log. The log must be saved afterwards.
    pub fn on_written(&mut self, log: &mut ImportLog, now: &str) -> (r: Result<InboxAction, Error>)
        requires
            inbox_wf(old(self)@),
            old(self)@.pending is Some,
        ensures
            final(log)@ == log_after_note(old(self)@, old(log)@, now@),
            final(log).spec_path() == old(log).spec_path(),
            match inbox_run(after_note(old(self)@), final(log)@) {
                Ok((s, a)) => r is Ok && final(self)@ == s && r->Ok_0@ == a && inbox_fits(s, a),
                Err(e) => r is Err && r->Err_0@ == e,
            },
    {
        proof {
            lemma_seq_view(self.found@);
        }
        assert(self.next_item < self.found.len());
        let p = match self.pending.take() {
            Some(p) => p,
            None => {
                return Err(Error::other(String::new()));
            },
        };
        log.mark_imported(p.key.as_str(), Some(p.number), Some(p.url.as_str()), now);
        let j = done_note_json(p.number, p.title.as_str(), p.url.as_str(), "imported");
        self.push_item(j);
        self.imported = self.imported.saturating_add(1);
        self.next_item = self.next_item + 1;
        assert(self@ == after_note(old(self)@));
        proof {
            lemma_inbox_run(self@, log@);
        }
        self.advance(log)
    }
}

/// Idempotency for the inbox: a note is written only for an issue whose key the log does not
/// record.
pub proof fn law_inbox_logged_issues_are_skipped(s: InboxImportV, log: Map<Seq<char>, JsonV>)
    requires
        inbox_wf(s),
        s.pending is None,
    ensures
        inbox_run(s, log) matches Ok((s2, a)) ==> (a is WriteNote ==> (s2.pending matches Some(p)
            && !log.dom().contains(p.key))),
    decreases s.found.len() - s.next_item,
{
    if s.next_item < s.found.len() && s.next_source > 0 {
        let (s2, a) = take_item(s, log);
        if a is None {
            law_inbox_logged_issues_are_skipped(s2, log);
        }
    }
}

/// A dry run writes no notes.
pub proof fn law_inbox_dry_run_writes_nothing(s: InboxImportV, log: Map<Seq<char>, JsonV>)
    requires
        inbox_wf(s),
        s.pending is None,
        s.dry_run,
    ensures
        inbox_run(s, log) matches Ok((_, a)) ==> !(a is WriteNote),
    decreases s.found.len() - s.next_item,
{
    if s.next_item < s.found.len() && s.next_source > 0 {
        let (s2, a) = take_item(s, log);
        if a is None {
            law_inbox_dry_run_writes_nothing(s2, log);
        }
    }
}


/// In a real run, an issue found whose key the log does not record is written as the note
/// `issue-<number>.md` holding its URL and a newline; once written, the log gains exactly its
/// key (`<source repo>#<number>`), and the issue is reported as imported. An issue whose key
/// the log records is reported as already imported and nothing is written for it.
pub proof fn law_inbox_note_then_log(s: InboxImportV, log: Map<Seq<char>, JsonV>, now: Seq<char>)
    requires
        inbox_wf(s),
        s.pending is None,
        s.next_source > 0,
        s.next_item < s.found.len(),
    ensures
        ({
            let item = s.found[s.next_item as int];
            let number = match field_u64(item, "number"@) {
                Some(n) => n,
                None => 0,
            };
            let title = or_empty(field_str(item, "title"@));
            let url = or_empty(field_str(item, "html_url"@));
            let key = note_key(s.sources[s.next_source - 1].repo@, number);
            let (s2, a) = take_item(s, log);
            &&& log.dom().contains(key) ==> a is None && s2.items == s.items.push(
                skipped_note(number, title),
            ) && s2.skipped == inc(s.skipped)
            &&& !log.dom().contains(key) && !s.dry_run ==> a == Some(
                InboxActionV::WriteNote { file_name: note_file(number), contents: url + "\n"@ },
            ) && log_after_note(s2, log, now).dom() == log.dom().insert(key)
                && after_note(s2).items == s.items.push(done_note(number, title, url, "imported"@))
        }),
{
}


/// Every source is searched, in order: going on either asks for the search of the next
/// source (whose repository it names) or finishes, and it finishes only once every source
/// was searched and every issue found by the last one was taken up.
pub proof fn law_inbox_searches_every_source(s: InboxImportV, log: Map<Seq<char>, JsonV>)
    requires
        inbox_wf(s),
        s.pending is None,
    ensures
        inbox_run(s, log) matches Ok((s2, InboxActionV::Finish(_))) ==> s2.next_source
            == s2.sources.len() && s2.next_item == s2.found.len() && s2.sources == s.sources,
        inbox_run(s, log) matches Ok((s2, InboxActionV::Search(q))) ==> {
            &&& s.next_source < s.sources.len()
            &&& s2.next_source == s.next_source + 1
            &&& spec_parse_repo(s.sources[s.next_source as int].repo@) matches Some((o, n))
            &&& q == spec_source_query(o, n, s.sources[s.next_source as int].filter@)
        },
    decreases s.found.len() - s.next_item,
{
    if s.next_item < s.found.len() && s.next_source > 0 {
        let (s2, a) = take_item(s, log);
        if a is None {
            law_inbox_searches_every_source(s2, log);
        }
    }
}

} // verus!
