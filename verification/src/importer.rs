//! Issue files, repository references, milestone lookup, and the idempotency log.
use vstd::prelude::*;

use crate::error::{Error, ErrorV, err};
use crate::json::{
    Json, JsonV, field_str, field_u64, json_fields_view, json_seq_view, json_view, lemma_fields_view,
    lemma_seq_view,
};
use crate::serde_calls::{json_string_list, json_string_list_of};
use crate::text::{
    chars_of, concat, concat3, eq_ignore_ascii_case, eq_ignore_case, is_blank, is_blank_str, owned,
    push_str, skip_leading, skip_trailing, str_eq, string_of, strip_leading, strip_trailing, trim,
    trim_str, seq_less, str_less, lemma_seq_less_asymmetric, lemma_seq_less_transitive,
    lemma_seq_less_total,
};

verus! {

/// A milestone named by its number or by its title.
#[derive(Clone, Debug, PartialEq, Eq)]
pub enum MilestoneRef {
    Number(u64),
    Title(String),
}

/// One issue as an issues file describes it.
#[derive(Clone, Debug)]
pub struct IssueItem {
    pub title: String,
    pub body: Option<String>,
    pub labels: Option<Vec<String>>,
    pub milestone: Option<MilestoneRef>,
    pub assignees: Option<Vec<String>>,
    pub id: Option<String>,
    pub state: Option<String>,
}

/// A remote repository to pull issues from, with an optional search filter.
#[derive(Clone, Debug)]
pub struct SourceConfig {
    pub repo: String,
    pub filter: String,
}

/// A batch configuration: an inbox directory or target repository, sources, and issues.
#[derive(Clone, Debug)]
pub struct BatchConfig {
    pub inbox: Option<String>,
    pub target_repo: Option<String>,
    pub sources: Vec<SourceConfig>,
    pub issues: Vec<IssueItem>,
}

/// What an issues file holds: a list of issues, or a batch configuration.
#[derive(Clone, Debug)]
pub enum ParsedInput {
    Issues(Vec<IssueItem>),
    Batch(BatchConfig),
}

/// A batch configuration that names sources or an inbox, and so is a batch.
pub open spec fn is_batch(b: BatchConfig) -> bool {
    b.sources.len() > 0 || b.inbox is Some
}

/// The configuration that an object reading gives.
pub open spec fn object_config(o: (BatchConfig, bool)) -> BatchConfig {
    o.0
}

/// Whether the object has an `issues` key.
pub open spec fn object_has_issues(o: (BatchConfig, bool)) -> bool {
    o.1
}

/// What a non-blank issues file is taken to hold, from the four ways of reading its text:
/// as a YAML list of issues, as a YAML object, as a JSON list, as a JSON object. An object
/// comes with whether it has an `issues` key. An object that names sources or an inbox is a
/// batch; an object with an `issues` key is that list of issues, which may be empty
/// (`issues: []`); an object with neither is not an issues file in that reading.
pub open spec fn spec_classify(
    yaml_list: Option<Vec<IssueItem>>,
    yaml_object: Option<(BatchConfig, bool)>,
    json_list: Option<Vec<IssueItem>>,
    json_object: Option<(BatchConfig, bool)>,
) -> Option<ParsedInput> {
    if yaml_list is Some {
        Some(ParsedInput::Issues(yaml_list->0))
    } else if yaml_object is Some && is_batch(object_config(yaml_object->0)) {
        Some(ParsedInput::Batch(object_config(yaml_object->0)))
    } else if yaml_object is Some && object_has_issues(yaml_object->0) {
        Some(ParsedInput::Issues(object_config(yaml_object->0).issues))
    } else if json_list is Some {
        Some(ParsedInput::Issues(json_list->0))
    } else if json_object is Some && is_batch(object_config(json_object->0)) {
        Some(ParsedInput::Batch(object_config(json_object->0)))
    } else if json_object is Some && object_has_issues(json_object->0) {
        Some(ParsedInput::Issues(object_config(json_object->0).issues))
    } else {
        None
    }
}

/// The message for a file that is neither form.
pub open spec fn unreadable_format_message(path: Seq<char>) -> Seq<char> {
    "File '"@ + path
        + "' is not valid YAML or JSON issues file. Expected an array of issues or an object with 'issues' or 'sources'."@
}

/// Decides what the issues file at `path`, with text `content`, holds, given what its text
/// gives when read in each of the four forms (`None` where that reading fails); an object
/// comes with whether it has an `issues` key.
pub fn classify_input(
    path: &str,
    content: &str,
    yaml_list: Option<Vec<IssueItem>>,
    yaml_object: Option<(BatchConfig, bool)>,
    json_list: Option<Vec<IssueItem>>,
    json_object: Option<(BatchConfig, bool)>,
) -> (r: Result<ParsedInput, Error>)
    ensures
        is_blank(content@) ==> (r matches Ok(ParsedInput::Issues(v)) && v.len() == 0),
        !is_blank(content@) ==> match spec_classify(yaml_list, yaml_object, json_list, json_object) {
            Some(p) => r == Ok::<ParsedInput, Error>(p),
            None => r is Err && r->Err_0@ == err(
                crate::error::ErrorCode::InvalidInput,
                unreadable_format_message(path@),
            ),
        },
{
    if is_blank_str(content) {
        return Ok(ParsedInput::Issues(Vec::new()));
    }
    if let Some(issues) = yaml_list {
        return Ok(ParsedInput::Issues(issues));
    }
    if let Some((batch, has_issues)) = yaml_object {
        if batch.sources.len() > 0 || batch.inbox.is_some() {
            return Ok(ParsedInput::Batch(batch));
        }
        if has_issues {
            return Ok(ParsedInput::Issues(batch.issues));
        }
    }
    if let Some(issues) = json_list {
        return Ok(ParsedInput::Issues(issues));
    }
    if let Some((batch, has_issues)) = json_object {
        if batch.sources.len() > 0 || batch.inbox.is_some() {
            return Ok(ParsedInput::Batch(batch));
        }
        if has_issues {
            return Ok(ParsedInput::Issues(batch.issues));
        }
    }
    let mut msg = concat("File '", path);
    push_str(
        &mut msg,
        "' is not valid YAML or JSON issues file. Expected an array of issues or an object with 'issues' or 'sources'.",
    );
    Err(Error::invalid(msg))
}

/// The error for an issues file that could not be read; `reason` is the system's text.
pub fn read_failure(path: &str, reason: &str) -> (r: Error)
    ensures
        r@ == err(
            crate::error::ErrorCode::InvalidInput,
            "Could not read file '"@ + path@ + "': "@ + reason@,
        ),
{
    let mut msg = concat3("Could not read file '", path, "': ");
    push_str(&mut msg, reason);
    Error::invalid(msg)
}

/// `s` with every trailing copy of `suf` removed (`str::trim_end_matches` with a string).
pub open spec fn strip_suffixes(s: Seq<char>, suf: Seq<char>) -> Seq<char>
    decreases s.len(),
{
    if suf.len() > 0 && suf.len() <= s.len() && s.subrange(s.len() - suf.len(), s.len() as int)
        == suf {
        strip_suffixes(s.subrange(0, s.len() - suf.len()), suf)
    } else {
        s
    }
}

/// `s` without the first of the GitHub prefixes that it starts with.
pub open spec fn strip_host(s: Seq<char>) -> Seq<char> {
    if crate::text::starts_with(s, "https://github.com/"@) {
        s.skip(19)
    } else if crate::text::starts_with(s, "http://github.com/"@) {
        s.skip(18)
    } else if crate::text::starts_with(s, "git@github.com:"@) {
        s.skip(15)
    } else {
        s
    }
}

/// The `owner/repo` part of a repository reference: trimmed, without trailing `.git`, without
/// a GitHub URL prefix, and without leading or trailing `/`.
pub open spec fn repo_part(input: Seq<char>) -> Seq<char> {
    strip_trailing(strip_leading(strip_host(strip_suffixes(trim(input), ".git"@)), '/'), '/')
}

/// No `/` in `s`.
pub open spec fn no_slash(s: Seq<char>) -> bool {
    forall|i: int| 0 <= i < s.len() ==> s[i] != '/'
}

/// `(owner, repo)` when `p` is `owner/repo` with both parts non-empty and free of `/`.
pub open spec fn split_owner_repo(p: Seq<char>) -> Option<(Seq<char>, Seq<char>)> {
    if exists|k: int|
        0 < k < p.len() - 1 && p[k] == '/' && no_slash(#[trigger] p.take(k)) && no_slash(
            p.skip(k + 1),
        ) {
        let k = choose|k: int|
            0 < k < p.len() - 1 && p[k] == '/' && no_slash(#[trigger] p.take(k)) && no_slash(
                p.skip(k + 1),
            );
        Some((p.take(k), p.skip(k + 1)))
    } else {
        None
    }
}

/// The owner and name named by a repository reference, if it names one.
pub open spec fn spec_parse_repo(input: Seq<char>) -> Option<(Seq<char>, Seq<char>)> {
    split_owner_repo(repo_part(input))
}

/// The message for a reference that names no repository.
pub open spec fn bad_repo_message(input: Seq<char>) -> Seq<char> {
    "Invalid repository format '"@ + input
        + "'. Expected 'owner/repo' or 'https://github.com/owner/repo'."@
}

/// Whether `v[i..]` starts with `lit`, within `v[..hi]`.
fn at(v: &Vec<char>, i: usize, hi: usize, lit: &str) -> (r: bool)
    requires
        i <= hi <= v.len(),
    ensures
        r == (i + lit@.len() <= hi && v@.subrange(i as int, i + lit@.len()) == lit@),
{
    let w = chars_of(lit);
    if w.len() > hi - i {
        return false;
    }
    let mut k: usize = 0;
    while k < w.len()
        invariant
            i + w.len() <= hi <= v.len(),
            w@ == lit@,
            k <= w.len(),
            forall|m: int| 0 <= m < k ==> v@[i + m] == w@[m],
        decreases w.len() - k,
    {
        if v[i + k] != w[k] {
            assert(v@.subrange(i as int, i + w.len())[k as int] != w@[k as int]);
            return false;
        }
        k = k + 1;
    }
    assert(v@.subrange(i as int, i + w.len()) =~= w@);
    true
}

proof fn lemma_strip_suffixes_step(v: Seq<char>, j: int)
    requires
        4 <= j <= v.len(),
        v.subrange(j - 4, j) == ".git"@,
    ensures
        strip_suffixes(v.subrange(0, j), ".git"@) == strip_suffixes(v.subrange(0, j - 4), ".git"@),
{
    let s = v.subrange(0, j);
    assert(s.subrange(s.len() - 4, s.len() as int) == v.subrange(j - 4, j));
    assert(s.subrange(0, s.len() - 4) == v.subrange(0, j - 4));
}

/// The end of `v` once every trailing `.git` is removed.
fn strip_git(v: &Vec<char>) -> (j: usize)
    ensures
        j <= v.len(),
        v@.subrange(0, j as int) == strip_suffixes(v@, ".git"@),
{
    let mut j: usize = v.len();
    assert(v@.subrange(0, j as int) == v@);
    while j >= 4 && at(v, j - 4, j, ".git")
        invariant
            j <= v.len(),
            strip_suffixes(v@, ".git"@) == strip_suffixes(v@.subrange(0, j as int), ".git"@),
        decreases j,
    {
        proof {
            reveal_strlit(".git");
            lemma_strip_suffixes_step(v@, j as int);
        }
        j = j - 4;
    }
    proof {
        reveal_strlit(".git");
        let s1 = v@.subrange(0, j as int);
        if 4 <= s1.len() {
            assert(s1.subrange(s1.len() - 4, s1.len() as int) == v@.subrange(j - 4, j as int));
        }
        assert(strip_suffixes(s1, ".git"@) == s1);
    }
    j
}

/// The start of `v[..j]` once a GitHub prefix is removed.
fn strip_host_at(v: &Vec<char>, j: usize) -> (lo: usize)
    requires
        j <= v.len(),
    ensures
        lo <= j,
        strip_host(v@.subrange(0, j as int)) == v@.subrange(lo as int, j as int),
{
    let ghost s1 = v@.subrange(0, j as int);
    proof {
        reveal_strlit("https://github.com/");
        reveal_strlit("http://github.com/");
        reveal_strlit("git@github.com:");
    }
    if at(v, 0, j, "https://github.com/") {
        assert(s1.subrange(0, 19) == v@.subrange(0, 19));
        assert(s1.skip(19) == v@.subrange(19, j as int));
        19
    } else if at(v, 0, j, "http://github.com/") {
        assert(s1.subrange(0, 19) == v@.subrange(0, 19) || j < 19);
        assert(s1.subrange(0, 18) == v@.subrange(0, 18));
        assert(s1.skip(18) == v@.subrange(18, j as int));
        18
    } else if at(v, 0, j, "git@github.com:") {
        assert(s1.subrange(0, 19) == v@.subrange(0, 19) || j < 19);
        assert(s1.subrange(0, 18) == v@.subrange(0, 18) || j < 18);
        assert(s1.subrange(0, 15) == v@.subrange(0, 15));
        assert(s1.skip(15) == v@.subrange(15, j as int));
        15
    } else {
        assert(s1.subrange(0, 19) == v@.subrange(0, 19) || j < 19);
        assert(s1.subrange(0, 18) == v@.subrange(0, 18) || j < 18);
        assert(s1.subrange(0, 15) == v@.subrange(0, 15) || j < 15);
        0
    }
}

/// The index of the `/` that splits `v[a..b]` into owner and name, if it splits.
fn split_slash(v: &Vec<char>, a: usize, b: usize) -> (r: Option<usize>)
    requires
        a <= b <= v.len(),
    ensures
        match r {
            Some(k) => a < k < b && split_owner_repo(v@.subrange(a as int, b as int)) == Some(
                (v@.subrange(a as int, k as int), v@.subrange(k + 1, b as int)),
            ),
            None => split_owner_repo(v@.subrange(a as int, b as int)) is None,
        },
{
    let ghost p = v@.subrange(a as int, b as int);
    let mut k: usize = a;
    while k < b && v[k] != '/'
        invariant
            a <= k <= b <= v.len(),
            forall|m: int| a <= m < k ==> v@[m] != '/',
        decreases b - k,
    {
        k = k + 1;
    }
    let mut m: usize = if k < b {
        k + 1
    } else {
        b
    };
    while m < b && v[m] != '/'
        invariant
            a <= k <= b <= v.len(),
            k < b ==> k + 1 <= m,
            k == b ==> m == b,
            m <= b,
            forall|x: int| k < x < m ==> v@[x] != '/',
        decreases b - m,
    {
        m = m + 1;
    }
    if k > a && k < b && k + 1 < b && m == b {
        proof {
            let kk = k - a;
            assert(p[kk] == '/');
            assert(p.take(kk) == v@.subrange(a as int, k as int));
            assert(p.skip(kk + 1) == v@.subrange(k + 1, b as int));
            assert(no_slash(p.take(kk)));
            assert(no_slash(p.skip(kk + 1)));
            let c = choose|c: int|
                0 < c < p.len() - 1 && p[c] == '/' && no_slash(#[trigger] p.take(c)) && no_slash(
                    p.skip(c + 1),
                );
            if c < kk {
                assert(p.skip(c + 1)[kk - c - 1] == '/');
            } else if c > kk {
                assert(p.take(c)[kk] == '/');
            }
        }
        Some(k)
    } else {
        proof {
            assert forall|c: int|
                0 < c < p.len() - 1 && p[c] == '/' && no_slash(
                    #[trigger] p.take(c),
                ) implies !no_slash(p.skip(c + 1)) by {
                if k == b {
                    assert(v@[a + c] == '/');
                } else if k == a {
                    assert(p.take(c)[0] == '/');
                } else if a + c < k {
                    assert(v@[a + c] == '/');
                } else if a + c > k {
                    assert(p.take(c)[k - a] == '/');
                } else {
                    assert(p.skip(c + 1)[m - k - 1] == '/');
                }
            }
        }
        None
    }
}

/// Parses `owner/repo`, `https://github.com/owner/repo` (or `http://`), or
/// `git@github.com:owner/repo`, with an optional `.git` ending, into `(owner, repo)`.
pub fn parse_repo(input: &str) -> (r: Result<(String, String), Error>)
    ensures
        match spec_parse_repo(input@) {
            Some((o, n)) => r is Ok && r->Ok_0.0@ == o && r->Ok_0.1@ == n,
            None => r is Err && r->Err_0@ == err(
                crate::error::ErrorCode::InvalidInput,
                bad_repo_message(input@),
            ),
        },
{
    let t = trim_str(input);
    let v = chars_of(t.as_str());
    let j = strip_git(&v);
    let lo = strip_host_at(&v, j);
    let a = skip_leading(&v, lo, j, '/');
    let b = skip_trailing(&v, a, j, '/');
    assert(v@.subrange(a as int, b as int) == repo_part(input@));
    match split_slash(&v, a, b) {
        Some(k) => {
            let owner = string_of(&v, a, k);
            let repo = string_of(&v, k + 1, b);
            Ok((owner, repo))
        },
        None => {
            let mut msg = concat("Invalid repository format '", input);
            push_str(&mut msg, "'. Expected 'owner/repo' or 'https://github.com/owner/repo'.");
            Err(Error::invalid(msg))
        },
    }
}

/// The number of the first milestone in `items` whose title matches `title` in any ASCII case
/// and that has a number.
pub open spec fn first_milestone(items: Seq<JsonV>, title: Seq<char>) -> Option<u64>
    decreases items.len(),
{
    if items.len() == 0 {
        None
    } else {
        let m = items[0];
        if field_str(m, "title"@) is Some && eq_ignore_case(field_str(m, "title"@)->0, title)
            && field_u64(m, "number"@) is Some {
            field_u64(m, "number"@)
        } else {
            first_milestone(items.drop_first(), title)
        }
    }
}

/// The number of the milestone titled `title` in a milestone listing; `None` when the listing
/// is not an array or holds no such milestone.
pub open spec fn milestone_in(listing: JsonV, title: Seq<char>) -> Option<u64> {
    match listing {
        JsonV::Array(items) => first_milestone(items, title),
        _ => None,
    }
}

/// The message for a milestone title that the repository does not have.
pub open spec fn missing_milestone_message(title: Seq<char>, owner: Seq<char>, repo: Seq<char>) -> Seq<
    char,
> {
    "Milestone '"@ + title + "' was not found in repository '"@ + owner + "/"@ + repo + "'."@
}

/// Finds the milestone titled `title` in the listing `milestones` of `owner/repo`.
pub fn find_milestone(milestones: &Json, owner: &str, repo: &str, title: &str) -> (r: Result<
    u64,
    Error,
>)
    ensures
        match milestone_in(milestones@, title@) {
            Some(n) => r == Ok::<u64, Error>(n),
            None => r is Err && r->Err_0@ == err(
                crate::error::ErrorCode::InvalidInput,
                missing_milestone_message(title@, owner@, repo@),
            ),
        },
{
    if let Some(arr) = milestones.as_array() {
        proof {
            lemma_seq_view(arr@);
        }
        let ghost items = json_seq_view(arr@);
        let mut i: usize = 0;
        assert(items.subrange(0, items.len() as int) == items);
        while i < arr.len()
            invariant
                items == json_seq_view(arr@),
                items.len() == arr.len(),
                forall|k: int| 0 <= k < arr.len() ==> #[trigger] items[k] == json_view(arr@[k]),
                milestones@ == JsonV::Array(items),
                i <= arr.len(),
                first_milestone(items, title@) == first_milestone(
                    items.subrange(i as int, items.len() as int),
                    title@,
                ),
            decreases arr.len() - i,
        {
            let ghost rest = items.subrange(i as int, items.len() as int);
            assert(rest[0] == items[i as int]);
            assert(rest.drop_first() == items.subrange(i + 1, items.len() as int));
            let m = &arr[i];
            match m.str_field("title") {
                Some(t) => {
                    if eq_ignore_ascii_case(t.as_str(), title) {
                        match m.u64_field("number") {
                            Some(n) => {
                                return Ok(n);
                            },
                            None => {},
                        }
                    }
                },
                None => {},
            }
            i = i + 1;
        }
    }
    let mut msg = concat3("Milestone '", title, "' was not found in repository '");
    push_str(&mut msg, owner);
    push_str(&mut msg, "/");
    push_str(&mut msg, repo);
    push_str(&mut msg, "'.");
    Err(Error::invalid(msg))
}

/// The number of a milestone reference: a number is itself, a title is looked up in the
/// repository's milestone listing.
pub open spec fn spec_resolve_milestone(
    m_ref: MilestoneRef,
    listing: JsonV,
    owner: Seq<char>,
    repo: Seq<char>,
) -> Result<Option<u64>, ErrorV> {
    match m_ref {
        MilestoneRef::Number(n) => Ok(Some(n)),
        MilestoneRef::Title(t) => match milestone_in(listing, t@) {
            Some(n) => Ok(Some(n)),
            None => Err(
                err(
                    crate::error::ErrorCode::InvalidInput,
                    missing_milestone_message(t@, owner, repo),
                ),
            ),
        },
    }
}

/// Resolves a milestone reference to a milestone number; `milestones` is the repository's
/// milestone listing, read only for a title.
pub fn resolve_milestone(owner: &str, repo: &str, m_ref: &MilestoneRef, milestones: &Json) -> (r:
    Result<Option<u64>, Error>)
    ensures
        match spec_resolve_milestone(*m_ref, milestones@, owner@, repo@) {
            Ok(n) => r == Ok::<Option<u64>, Error>(n),
            Err(e) => r is Err && r->Err_0@ == e,
        },
{
    match m_ref {
        MilestoneRef::Number(n) => Ok(Some(*n)),
        MilestoneRef::Title(t) => match find_milestone(milestones, owner, repo, t.as_str()) {
            Ok(n) => Ok(Some(n)),
            Err(e) => Err(e),
        },
    }
}

/// A plain name part of a repository reference: not empty, with no `/`, `:` or whitespace.
pub open spec fn plain_part(s: Seq<char>) -> bool {
    &&& s.len() > 0
    &&& forall|i: int| 0 <= i < s.len() ==> s[i] != '/' && s[i] != ':' && !crate::text::is_ws(#[trigger] s[i])
}

proof fn lemma_trim_plain(s: Seq<char>)
    requires
        s.len() > 0,
        !crate::text::is_ws(s[0]),
        !crate::text::is_ws(s.last()),
    ensures
        trim(s) == s,
{
    assert(crate::text::trim_start(s) == s);
}

proof fn lemma_no_git_suffix(s: Seq<char>)
    requires
        s.len() >= 4 ==> s.subrange(s.len() - 4, s.len() as int) != ".git"@,
    ensures
        strip_suffixes(s, ".git"@) == s,
{
    reveal_strlit(".git");
}

proof fn lemma_split_plain(o: Seq<char>, n: Seq<char>)
    requires
        plain_part(o),
        plain_part(n),
    ensures
        split_owner_repo(o + "/"@ + n) == Some((o, n)),
{
    reveal_strlit("/");
    let p = o + "/"@ + n;
    let k = o.len() as int;
    assert(p[k] == '/');
    assert(p.take(k) =~= o);
    assert(p.skip(k + 1) =~= n);
    assert(no_slash(p.take(k)));
    assert(no_slash(p.skip(k + 1)));
    let c = choose|c: int|
        0 < c < p.len() - 1 && p[c] == '/' && no_slash(#[trigger] p.take(c)) && no_slash(p.skip(c + 1));
    if c < k {
        assert(p[c] == o[c]);
    } else if c > k {
        assert(p[c] == n[c - k - 1]);
    }
}

proof fn lemma_plain_pair_part(o: Seq<char>, n: Seq<char>)
    requires
        plain_part(o),
        plain_part(n),
        !crate::text::ends_with(n, ".git"@),
    ensures
        strip_suffixes(o + "/"@ + n, ".git"@) == o + "/"@ + n,
        strip_host(o + "/"@ + n) == o + "/"@ + n,
        strip_trailing(strip_leading(o + "/"@ + n, '/'), '/') == o + "/"@ + n,
        trim(o + "/"@ + n) == o + "/"@ + n,
{
    reveal_strlit("/");
    reveal_strlit(".git");
    reveal_strlit("https://github.com/");
    reveal_strlit("http://github.com/");
    reveal_strlit("git@github.com:");
    let p = o + "/"@ + n;
    let k = o.len() as int;
    assert(p[0] == o[0]);
    assert(p.last() == n.last());
    lemma_trim_plain(p);
    if p.len() >= 4 {
        let t = p.subrange(p.len() - 4, p.len() as int);
        if n.len() >= 4 {
            assert(t =~= n.subrange(n.len() - 4, n.len() as int));
        } else {
            assert(t[3 - n.len()] == '/');
        }
    }
    lemma_no_git_suffix(p);
    // no GitHub prefix: position `m` of the prefix is `:` or a letter where `p` has `/` or
    // a plain character
    assert(!crate::text::starts_with(p, "https://github.com/"@)) by {
        if p.len() >= 19 {
            if k <= 5 {
                assert(p.subrange(0, 19)[k] == '/');
            } else {
                assert(p.subrange(0, 19)[5] == o[5]);
            }
        }
    }
    assert(!crate::text::starts_with(p, "http://github.com/"@)) by {
        if p.len() >= 18 {
            if k <= 4 {
                assert(p.subrange(0, 18)[k] == '/');
            } else {
                assert(p.subrange(0, 18)[4] == o[4]);
            }
        }
    }
    assert(!crate::text::starts_with(p, "git@github.com:"@)) by {
        if p.len() >= 15 {
            if k <= 14 {
                assert(p.subrange(0, 15)[k] == '/');
            } else {
                assert(p.subrange(0, 15)[14] == o[14]);
            }
        }
    }
    assert(strip_leading(p, '/') == p);
    assert(strip_trailing(p, '/') == p);
}

/// `owner/repo` names the repository `repo` of `owner`, for plain names.
#[verifier::spinoff_prover]
#[verifier::rlimit(40)]
pub proof fn law_parse_plain_reference(o: Seq<char>, n: Seq<char>)
    requires
        plain_part(o),
        plain_part(n),
        !crate::text::ends_with(n, ".git"@),
    ensures
        spec_parse_repo(o + "/"@ + n) == Some((o, n)),
{
    lemma_plain_pair_part(o, n);
    lemma_split_plain(o, n);
}

/// `https://github.com/owner/repo` names the same repository as `owner/repo`.
#[verifier::spinoff_prover]
#[verifier::rlimit(40)]
pub proof fn law_parse_url_reference(o: Seq<char>, n: Seq<char>)
    requires
        plain_part(o),
        plain_part(n),
        !crate::text::ends_with(n, ".git"@),
    ensures
        spec_parse_repo("https://github.com/"@ + o + "/"@ + n) == Some((o, n)),
{
    reveal_strlit("/");
    reveal_strlit(".git");
    reveal_strlit("https://github.com/");
    lemma_plain_pair_part(o, n);
    lemma_split_plain(o, n);
    let p = o + "/"@ + n;
    let u = "https://github.com/"@ + p;
    assert(u[0] == 'h');
    assert(u.last() == n.last());
    lemma_trim_plain(u);
    if u.len() >= 4 {
        let t = u.subrange(u.len() - 4, u.len() as int);
        if n.len() >= 4 {
            assert(t =~= n.subrange(n.len() - 4, n.len() as int));
        } else {
            assert(t[3 - n.len()] == '/');
        }
    }
    lemma_no_git_suffix(u);
    assert(u.subrange(0, 19) =~= "https://github.com/"@);
    assert(u.skip(19) =~= p);
    assert(strip_host(u) == p);
    assert(repo_part(u) == p);
    assert(u =~= "https://github.com/"@ + o + "/"@ + n);
}

/// A trailing `.git` does not change the repository a reference names.
#[verifier::spinoff_prover]
#[verifier::rlimit(40)]
pub proof fn law_parse_git_suffix(o: Seq<char>, n: Seq<char>)
    requires
        plain_part(o),
        plain_part(n),
        !crate::text::ends_with(n, ".git"@),
    ensures
        spec_parse_repo(o + "/"@ + n + ".git"@) == Some((o, n)),
{
    reveal_strlit("/");
    reveal_strlit(".git");
    lemma_plain_pair_part(o, n);
    lemma_split_plain(o, n);
    let p = o + "/"@ + n;
    let g = p + ".git"@;
    assert(g[0] == o[0]);
    assert(g.last() == 't');
    lemma_trim_plain(g);
    assert(g.subrange(g.len() - 4, g.len() as int) =~= ".git"@);
    assert(g.subrange(0, g.len() - 4) =~= p);
}

/// `git@github.com:owner/repo.git`, with surrounding spaces, names the same repository as
/// `owner/repo`.
#[verifier::spinoff_prover]
#[verifier::rlimit(40)]
pub proof fn law_parse_ssh_reference(o: Seq<char>, n: Seq<char>)
    requires
        plain_part(o),
        plain_part(n),
        !crate::text::ends_with(n, ".git"@),
    ensures
        spec_parse_repo(" git@github.com:"@ + o + "/"@ + n + ".git "@) == Some((o, n)),
{
    reveal_strlit("/");
    reveal_strlit(".git");
    reveal_strlit(" ");
    reveal_strlit(".git ");
    reveal_strlit(" git@github.com:");
    reveal_strlit("git@github.com:");
    reveal_strlit("https://github.com/");
    reveal_strlit("http://github.com/");
    lemma_plain_pair_part(o, n);
    lemma_split_plain(o, n);
    let p = o + "/"@ + n;
    let h = "git@github.com:"@ + p;
    let g = h + ".git"@;
    let x = " git@github.com:"@ + o + "/"@ + n + ".git "@;
    assert(x =~= seq![' '] + g + seq![' ']);
    // trimming drops the two spaces
    assert(crate::text::is_ws(' '));
    assert(!crate::text::is_ws('g'));
    assert(!crate::text::is_ws('t'));
    assert(x.drop_first() =~= g + seq![' ']);
    assert(g[0] == 'g');
    assert((g + seq![' '])[0] == 'g');
    assert(crate::text::trim_start(g + seq![' ']) == g + seq![' ']);
    assert(crate::text::trim_start(x) == g + seq![' ']);
    assert((g + seq![' ']).drop_last() =~= g);
    assert(g.last() == 't');
    assert(crate::text::trim_end(g) == g);
    assert(trim(x) == g);
    // one `.git` comes off, and no other
    assert(g.subrange(g.len() - 4, g.len() as int) =~= ".git"@);
    assert(g.subrange(0, g.len() - 4) =~= h);
    if h.len() >= 4 {
        let t = h.subrange(h.len() - 4, h.len() as int);
        if n.len() >= 4 {
            assert(t =~= n.subrange(n.len() - 4, n.len() as int));
        } else {
            assert(t[3 - n.len()] == '/');
        }
    }
    lemma_no_git_suffix(h);
    assert(strip_suffixes(g, ".git"@) == h);
    // the host prefix comes off
    assert(h[0] == 'g');
    assert(!crate::text::starts_with(h, "https://github.com/"@)) by {
        if h.len() >= 19 {
            assert(h.subrange(0, 19)[0] == 'g');
        }
    }
    assert(!crate::text::starts_with(h, "http://github.com/"@)) by {
        if h.len() >= 18 {
            assert(h.subrange(0, 18)[0] == 'g');
        }
    }
    assert(h.subrange(0, 15) =~= "git@github.com:"@);
    assert(h.skip(15) =~= p);
    assert(strip_host(h) == p);
    assert(repo_part(x) == p);
}

/// No two entries share a key.
pub open spec fn keys_unique(s: Seq<(String, Json)>) -> bool {
    forall|i: int, j: int| 0 <= i < j < s.len() ==> s[i].0@ != s[j].0@
}

/// The map from key to entry that a list of entries gives, later entries winning.
pub open spec fn entries_map(s: Seq<(String, Json)>) -> Map<Seq<char>, JsonV>
    decreases s.len(),
{
    if s.len() == 0 {
        Map::empty()
    } else {
        entries_map(s.drop_last()).insert(s.last().0@, json_view(s.last().1))
    }
}

/// The log entry `{"key": key}` that a plain list of keys gives.
pub open spec fn key_entry(key: Seq<char>) -> JsonV {
    JsonV::Object(seq![("key"@, JsonV::Str(key))])
}

/// The map that a plain list of keys gives.
pub open spec fn keys_map(items: Seq<Seq<char>>) -> Map<Seq<char>, JsonV>
    decreases items.len(),
{
    if items.len() == 0 {
        Map::empty()
    } else {
        keys_map(items.drop_last()).insert(items.last(), key_entry(items.last()))
    }
}

/// A log kept as a plain list of keys records every key in the list.
pub proof fn law_key_list_is_imported(items: Seq<Seq<char>>)
    ensures
        forall|i: int|
            0 <= i < items.len() ==> #[trigger] keys_map(items).dom().contains(items[i]) && keys_map(
                items,
            )[items[i]] == key_entry(items[i]),
    decreases items.len(),
{
    if items.len() > 0 {
        let init = items.drop_last();
        law_key_list_is_imported(init);
        assert forall|i: int| 0 <= i < items.len() implies #[trigger] keys_map(items).dom().contains(
            items[i],
        ) && keys_map(items)[items[i]] == key_entry(items[i]) by {
            if i < items.len() - 1 {
                assert(init[i] == items[i]);
            }
        }
    }
}

/// The entry recorded for an imported issue.
pub open spec fn imported_entry(
    key: Seq<char>,
    now: Seq<char>,
    number: Option<u64>,
    url: Option<Seq<char>>,
) -> JsonV {
    let base = seq![("key"@, JsonV::Str(key)), ("importedAt"@, JsonV::Str(now))];
    let with_number = match number {
        Some(n) => base.push(("number"@, JsonV::UInt(n))),
        None => base,
    };
    JsonV::Object(
        match url {
            Some(u) => with_number.push(("url"@, JsonV::Str(u))),
            None => with_number,
        },
    )
}

proof fn lemma_entries_map(s: Seq<(String, Json)>)
    requires
        keys_unique(s),
    ensures
        entries_map(s).dom().finite(),
        entries_map(s).dom().len() == s.len(),
        forall|k: Seq<char>|
            #[trigger] entries_map(s).dom().contains(k) <==> exists|i: int|
                0 <= i < s.len() && s[i].0@ == k,
        forall|i: int|
            0 <= i < s.len() ==> #[trigger] entries_map(s)[s[i].0@] == json_view(s[i].1),
    decreases s.len(),
{
    if s.len() > 0 {
        let init = s.drop_last();
        assert(keys_unique(init));
        lemma_entries_map(init);
        let k = s.last().0@;
        assert(!entries_map(init).dom().contains(k)) by {
            if entries_map(init).dom().contains(k) {
                let i = choose|i: int| 0 <= i < init.len() && init[i].0@ == k;
                assert(s[i].0@ == s[s.len() - 1].0@);
            }
        }
        assert forall|k2: Seq<char>| #[trigger] entries_map(s).dom().contains(k2) <==> exists|i: int|
            0 <= i < s.len() && s[i].0@ == k2 by {
            if entries_map(s).dom().contains(k2) && k2 != k {
                let i = choose|i: int| 0 <= i < init.len() && init[i].0@ == k2;
                assert(s[i].0@ == k2);
            }
            if exists|i: int| 0 <= i < s.len() && s[i].0@ == k2 {
                let i = choose|i: int| 0 <= i < s.len() && s[i].0@ == k2;
                if i < s.len() - 1 {
                    assert(init[i].0@ == k2);
                }
            }
        }
        assert forall|i: int| 0 <= i < s.len() implies #[trigger] entries_map(s)[s[i].0@]
            == json_view(s[i].1) by {
            if i < s.len() - 1 {
                assert(init[i] == s[i]);
                assert(s[i].0@ != k);
            }
        }
    }
}

proof fn lemma_entries_update(s: Seq<(String, Json)>, i: int, e: (String, Json))
    requires
        keys_unique(s),
        0 <= i < s.len(),
        s[i].0@ == e.0@,
    ensures
        keys_unique(s.update(i, e)),
        entries_map(s.update(i, e)) == entries_map(s).insert(e.0@, json_view(e.1)),
    decreases s.len(),
{
    let t = s.update(i, e);
    assert(keys_unique(t)) by {
        assert forall|a: int, b: int| 0 <= a < b < t.len() implies t[a].0@ != t[b].0@ by {
            assert(s[a].0@ != s[b].0@);
        }
    }
    if i == s.len() - 1 {
        assert(t.drop_last() == s.drop_last());
        assert(entries_map(t) =~= entries_map(s).insert(e.0@, json_view(e.1)));
    } else {
        let init = s.drop_last();
        assert(keys_unique(init));
        lemma_entries_update(init, i, e);
        assert(t.drop_last() == init.update(i, e));
        assert(t.last() == s.last());
        assert(s.last().0@ != e.0@) by {
            assert(s[i].0@ != s[s.len() - 1].0@);
        }
        assert(entries_map(t) =~= entries_map(s).insert(e.0@, json_view(e.1)));
    }
}

/// The entries are in increasing order of key, the order of `str`.
pub open spec fn keys_sorted(s: Seq<(String, Json)>) -> bool {
    forall|i: int, j: int| 0 <= i < j < s.len() ==> seq_less(#[trigger] s[i].0@, #[trigger] s[j].0@)
}

proof fn lemma_entries_insert(s: Seq<(String, Json)>, i: int, e: (String, Json))
    requires
        keys_unique(s),
        0 <= i <= s.len(),
        forall|k: int| 0 <= k < s.len() ==> s[k].0@ != e.0@,
    ensures
        keys_unique(s.insert(i, e)),
        entries_map(s.insert(i, e)) == entries_map(s).insert(e.0@, json_view(e.1)),
{
    let t = s.insert(i, e);
    assert(keys_unique(t)) by {
        assert forall|a: int, b: int| 0 <= a < b < t.len() implies t[a].0@ != t[b].0@ by {
            if a < i && b < i {
                assert(s[a].0@ != s[b].0@);
            } else if a < i && b > i {
                assert(s[a].0@ != s[b - 1].0@);
            } else if a > i {
                assert(s[a - 1].0@ != s[b - 1].0@);
            }
        }
    }
    lemma_entries_map(s);
    lemma_entries_map(t);
    let m = entries_map(s).insert(e.0@, json_view(e.1));
    assert forall|k: Seq<char>| #[trigger] entries_map(t).dom().contains(k) <==> m.dom().contains(k) by {
        if entries_map(t).dom().contains(k) {
            let j = choose|j: int| 0 <= j < t.len() && t[j].0@ == k;
            if j < i {
                assert(s[j].0@ == k);
            } else if j > i {
                assert(s[j - 1].0@ == k);
            }
        }
        if m.dom().contains(k) {
            if k == e.0@ {
                assert(t[i].0@ == k);
            } else {
                let j = choose|j: int| 0 <= j < s.len() && s[j].0@ == k;
                if j < i {
                    assert(t[j].0@ == k);
                } else {
                    assert(t[j + 1].0@ == k);
                }
            }
        }
    }
    assert forall|k: Seq<char>| #[trigger] entries_map(t).dom().contains(k) implies entries_map(t)[k] == m[k] by {
        let j = choose|j: int| 0 <= j < t.len() && t[j].0@ == k;
        assert(entries_map(t)[t[j].0@] == json_view(t[j].1));
        if j < i {
            assert(t[j] == s[j]);
            assert(entries_map(s)[s[j].0@] == json_view(s[j].1));
        } else if j > i {
            assert(t[j] == s[j - 1]);
            assert(entries_map(s)[s[j - 1].0@] == json_view(s[j - 1].1));
        }
    }
    assert(entries_map(t) =~= m);
}

/// The record of which issues were already imported, keyed by issue key, with one entry per
/// key; saved next to the issues file as `import-log.json` by default.
pub struct ImportLog {
    path: String,
    entries: Vec<(String, Json)>,
}

impl View for ImportLog {
    type V = Map<Seq<char>, JsonV>;

    closed spec fn view(&self) -> Map<Seq<char>, JsonV> {
        entries_map(self.entries@)
    }
}

/// What a log file with text `text` (`None` when there is no readable file) holds, where
/// `as_map` is what its text gives when read as a JSON object of entries.
pub open spec fn spec_open_log(text: Option<Seq<char>>, as_map: Option<Map<Seq<char>, JsonV>>) -> Map<
    Seq<char>,
    JsonV,
> {
    match text {
        None => Map::empty(),
        Some(t) => match json_string_list_of(t) {
            Some(items) => keys_map(items),
            None => match as_map {
                Some(m) => m,
                None => Map::empty(),
            },
        },
    }
}

impl ImportLog {
    #[verifier::type_invariant]
    spec fn inv(self) -> bool {
        keys_unique(self.entries@) && keys_sorted(self.entries@)
    }

    /// Where the log is saved.
    pub closed spec fn spec_path(&self) -> Seq<char> {
        self.path@
    }

    /// An empty log to be saved at `path`.
    pub fn empty(path: String) -> (r: ImportLog)
        ensures
            r@ == Map::<Seq<char>, JsonV>::empty(),
            r.spec_path() == path@,
    {
        ImportLog { path, entries: Vec::new() }
    }

    /// Sets the entry for `key`, keeping one entry per key and the keys in order.
    fn put(&mut self, key: String, value: Json)
        ensures
            final(self)@ == old(self)@.insert(key@, value@),
            final(self).spec_path() == old(self).spec_path(),
    {
        proof {
            use_type_invariant(&*self);
        }
        let ghost old_entries = self.entries@;
        let mut i: usize = 0;
        while i < self.entries.len() && str_less(self.entries[i].0.as_str(), key.as_str())
            invariant
                i <= self.entries.len(),
                self.entries@ == old_entries,
                forall|k: int| 0 <= k < i ==> seq_less(#[trigger] self.entries@[k].0@, key@),
            decreases self.entries.len() - i,
        {
            i = i + 1;
        }
        let mut entries: Vec<(String, Json)> = Vec::new();
        std::mem::swap(&mut entries, &mut self.entries);
        if i < entries.len() && str_eq(entries[i].0.as_str(), key.as_str()) {
            proof {
                lemma_entries_update(old_entries, i as int, (key, value));
            }
            entries.set(i, (key, value));
            assert(entries@ == old_entries.update(i as int, (key, value)));
            assert(keys_sorted(entries@)) by {
                assert forall|a: int, b: int| 0 <= a < b < entries@.len() implies seq_less(
                    #[trigger] entries@[a].0@,
                    #[trigger] entries@[b].0@,
                ) by {
                    assert(seq_less(old_entries[a].0@, old_entries[b].0@));
                }
            }
        } else {
            proof {
                assert forall|k: int| 0 <= k < old_entries.len() implies old_entries[k].0@ != key@ by {
                    if k < i {
                        lemma_seq_less_asymmetric(old_entries[k].0@, key@);
                    } else {
                        lemma_seq_less_total(old_entries[i as int].0@, key@);
                        if k > i {
                            assert(seq_less(old_entries[i as int].0@, old_entries[k].0@));
                            lemma_seq_less_transitive(key@, old_entries[i as int].0@, old_entries[k].0@);
                            lemma_seq_less_asymmetric(key@, old_entries[k].0@);
                        }
                    }
                }
                lemma_entries_insert(old_entries, i as int, (key, value));
            }
            entries.insert(i, (key, value));
            let ghost t = entries@;
            assert(t == old_entries.insert(i as int, (key, value)));
            assert(keys_sorted(t)) by {
                assert forall|a: int, b: int| 0 <= a < b < t.len() implies seq_less(
                    #[trigger] t[a].0@,
                    #[trigger] t[b].0@,
                ) by {
                    if i < old_entries.len() {
                        lemma_seq_less_total(old_entries[i as int].0@, key@);
                    }
                    if b < i {
                        assert(seq_less(old_entries[a].0@, old_entries[b].0@));
                    } else if b == i {
                        assert(seq_less(old_entries[a].0@, key@));
                    } else if a < i {
                        assert(seq_less(old_entries[a].0@, key@));
                        if b - 1 > i {
                            assert(seq_less(old_entries[i as int].0@, old_entries[b - 1].0@));
                            lemma_seq_less_transitive(key@, old_entries[i as int].0@, old_entries[b - 1].0@);
                        }
                        lemma_seq_less_transitive(old_entries[a].0@, key@, old_entries[b - 1].0@);
                    } else if a == i {
                        if b - 1 > i {
                            assert(seq_less(old_entries[i as int].0@, old_entries[b - 1].0@));
                            lemma_seq_less_transitive(key@, old_entries[i as int].0@, old_entries[b - 1].0@);
                        }
                    } else {
                        assert(seq_less(old_entries[a - 1].0@, old_entries[b - 1].0@));
                    }
                }
            }
        }
        self.entries = entries;
    }

    /// Opens the log saved at `path`: `text` is the file's text (`None` when there is no
    /// readable file) and `as_map` is its entries when the text reads as a JSON object. A JSON
    /// list of keys is read as well, each key getting the entry `{"key": key}`.
    pub fn open(path: String, text: Option<String>, as_map: Option<Vec<(String, Json)>>) -> (r:
        ImportLog)
        ensures
            r@ == spec_open_log(
                match text {
                    Some(t) => Some(t@),
                    None => None,
                },
                match as_map {
                    Some(m) => Some(entries_map(m@)),
                    None => None,
                },
            ),
            r.spec_path() == path@,
    {
        let mut log = ImportLog::empty(path);
        match text {
            None => {},
            Some(t) => match json_string_list(t.as_str()) {
                Some(items) => {
                    let ghost it = items.deep_view();
                    let mut i: usize = 0;
                    while i < items.len()
                        invariant
                            it == items.deep_view(),
                            i <= items.len(),
                            log@ == keys_map(it.take(i as int)),
                            log.spec_path() == path@,
                        decreases items.len() - i,
                    {
                        let key = items[i].clone();
                        let mut fields: Vec<(String, Json)> = Vec::new();
                        fields.push((owned("key"), Json::Str(key.clone())));
                        proof {
                            lemma_fields_view(fields@);
                            assert(json_fields_view(fields@) =~= seq![("key"@, JsonV::Str(key@))]);
                        }
                        assert(it.take(i + 1).drop_last() == it.take(i as int));
                        assert(it[i as int] == items@[i as int]@);
                        log.put(key, Json::Object(fields));
                        i = i + 1;
                    }
                    assert(it.take(items.len() as int) == it);
                },
                None => match as_map {
                    Some(m) => {
                        let mut i: usize = 0;
                        assert(m@.take(0) =~= Seq::<(String, Json)>::empty());
                        while i < m.len()
                            invariant
                                i <= m.len(),
                                log@ == entries_map(m@.take(i as int)),
                                log.spec_path() == path@,
                            decreases m.len() - i,
                        {
                            assert(m@.take(i + 1).drop_last() == m@.take(i as int));
                            let k = m[i].0.clone();
                            let v = m[i].1.duplicate();
                            log.put(k, v);
                            i = i + 1;
                        }
                        assert(m@.take(m.len() as int) == m@);
                    },
                    None => {},
                },
            },
        }
        log
    }

    /// Whether an issue with this key was already imported.
    #[verifier::loop_isolation(false)]
    pub fn is_imported(&self, key: &str) -> (r: bool)
        ensures
            r == self@.dom().contains(key@),
            self@.dom().finite(),
    {
        proof {
            use_type_invariant(self);
            lemma_entries_map(self.entries@);
        }
        let mut i: usize = 0;
        while i < self.entries.len()
            invariant
                i <= self.entries.len(),
                forall|k: int| 0 <= k < i ==> self.entries@[k].0@ != key@,
            decreases self.entries.len() - i,
        {
            if str_eq(self.entries[i].0.as_str(), key) {
                return true;
            }
            i = i + 1;
        }
        false
    }

    /// Records that the issue with this key was imported at time `now`, as issue `number` at
    /// `url`. The log must be saved afterwards.
    pub fn mark_imported(&mut self, key: &str, number: Option<u64>, url: Option<&str>, now: &str)
        ensures
            final(self)@ == old(self)@.insert(
                key@,
                imported_entry(
                    key@,
                    now@,
                    number,
                    match url {
                        Some(u) => Some(u@),
                        None => None,
                    },
                ),
            ),
            final(self).spec_path() == old(self).spec_path(),
            final(self)@.dom().finite(),
            final(self)@.dom().len() == old(self)@.dom().len() + if old(self)@.dom().contains(key@) {
                0int
            } else {
                1int
            },
    {
        proof {
            use_type_invariant(&*self);
            lemma_entries_map(self.entries@);
        }
        let ghost uv = match url {
            Some(u) => Some(u@),
            None => None,
        };
        let ghost base = seq![("key"@, JsonV::Str(key@)), ("importedAt"@, JsonV::Str(now@))];
        let ghost with_number = match number {
            Some(n) => base.push(("number"@, JsonV::UInt(n))),
            None => base,
        };
        let ghost all = match uv {
            Some(u) => with_number.push(("url"@, JsonV::Str(u))),
            None => with_number,
        };
        assert(imported_entry(key@, now@, number, uv) == JsonV::Object(all));
        let mut fields: Vec<(String, Json)> = Vec::new();
        fields.push((owned("key"), Json::Str(owned(key))));
        fields.push((owned("importedAt"), Json::Str(owned(now))));
        proof {
            lemma_fields_view(fields@);
            assert(json_fields_view(fields@) =~= base);
        }
        match number {
            Some(n) => fields.push((owned("number"), Json::UInt(n))),
            None => {},
        }
        proof {
            lemma_fields_view(fields@);
            assert(json_fields_view(fields@) =~= with_number);
        }
        match url {
            Some(u) => fields.push((owned("url"), Json::Str(owned(u)))),
            None => {},
        }
        proof {
            lemma_fields_view(fields@);
            assert(json_fields_view(fields@) =~= all);
        }
        self.put(owned(key), Json::Object(fields));
        proof {
            use_type_invariant(&*self);
            lemma_entries_map(self.entries@);
        }
    }

    /// The number of imported issues recorded.
    pub fn count(&self) -> (r: usize)
        ensures
            r == self@.dom().len(),
            self@.dom().finite(),
    {
        proof {
            use_type_invariant(self);
            lemma_entries_map(self.entries@);
        }
        self.entries.len()
    }

    /// The path the log is saved at.
    pub fn path(&self) -> (r: &String)
        ensures
            r@ == self.spec_path(),
    {
        &self.path
    }

    /// The entries, one per key in increasing order of key, for saving.
    pub fn entries(&self) -> (r: &Vec<(String, Json)>)
        ensures
            entries_map(r@) == self@,
            keys_unique(r@),
            keys_sorted(r@),
    {
        proof {
            use_type_invariant(self);
        }
        &self.entries
    }
}


/// An object reading that names no source, no inbox and has no `issues` key, or no object
/// reading at all.
pub open spec fn gives_nothing(o: Option<(BatchConfig, bool)>) -> bool {
    match o {
        None => true,
        Some((b, h)) => !h && b.sources.len() == 0 && b.inbox is None,
    }
}

/// How an issues file is read, stated on the readings themselves: a YAML list is the issues;
/// else a YAML object that names at least one source or an inbox is a batch, and one that
/// names neither but has an `issues` key is those issues; else the same for the JSON
/// readings; and a file with none of these is not an issues file.
pub proof fn law_classify_by_shape(
    yl: Option<Vec<IssueItem>>,
    yo: Option<(BatchConfig, bool)>,
    jl: Option<Vec<IssueItem>>,
    jo: Option<(BatchConfig, bool)>,
)
    ensures
        forall|v: Vec<IssueItem>| yl == Some(v) ==> spec_classify(yl, yo, jl, jo) == Some(
            ParsedInput::Issues(v),
        ),
        forall|b: BatchConfig, h: bool|
            yl is None && yo == Some((b, h)) && (b.sources.len() > 0 || b.inbox is Some)
                ==> spec_classify(yl, yo, jl, jo) == Some(ParsedInput::Batch(b)),
        forall|b: BatchConfig|
            yl is None && yo == Some((b, true)) && b.sources.len() == 0 && b.inbox is None
                ==> spec_classify(yl, yo, jl, jo) == Some(ParsedInput::Issues(b.issues)),
        forall|v: Vec<IssueItem>|
            yl is None && gives_nothing(yo) && jl == Some(v) ==> spec_classify(yl, yo, jl, jo)
                == Some(ParsedInput::Issues(v)),
        forall|b: BatchConfig, h: bool|
            yl is None && gives_nothing(yo) && jl is None && jo == Some((b, h)) && (b.sources.len()
                > 0 || b.inbox is Some) ==> spec_classify(yl, yo, jl, jo) == Some(
                ParsedInput::Batch(b),
            ),
        forall|b: BatchConfig|
            yl is None && gives_nothing(yo) && jl is None && jo == Some((b, true)) && b.sources.len()
                == 0 && b.inbox is None ==> spec_classify(yl, yo, jl, jo) == Some(
                ParsedInput::Issues(b.issues),
            ),
        yl is None && gives_nothing(yo) && jl is None && gives_nothing(jo) ==> spec_classify(
            yl,
            yo,
            jl,
            jo,
        ) is None,
{
}


/// A milestone in a listing whose title equals `title` in any ASCII case and that has a number.
pub open spec fn milestone_titled(m: JsonV, title: Seq<char>) -> bool {
    &&& field_str(m, "title"@) is Some
    &&& crate::text::ascii_lower_seq(field_str(m, "title"@)->0) == crate::text::ascii_lower_seq(title)
    &&& field_u64(m, "number"@) is Some
}

/// A milestone title is found exactly when the listing has a milestone with that title (in
/// any ASCII case) and a number; the number found is that of the first such milestone.
pub proof fn law_milestone_found_by_title(items: Seq<JsonV>, title: Seq<char>)
    ensures
        first_milestone(items, title) is None <==> forall|i: int|
            0 <= i < items.len() ==> !milestone_titled(#[trigger] items[i], title),
        forall|n: u64|
            first_milestone(items, title) == Some(n) ==> exists|i: int|
                0 <= i < items.len() && milestone_titled(#[trigger] items[i], title) && field_u64(
                    items[i],
                    "number"@,
                ) == Some(n) && forall|j: int| 0 <= j < i ==> !milestone_titled(#[trigger] items[j], title),
    decreases items.len(),
{
    if items.len() > 0 {
        let rest = items.drop_first();
        law_milestone_found_by_title(rest, title);
        if milestone_titled(items[0], title) {
            assert(first_milestone(items, title) == field_u64(items[0], "number"@));
        } else {
            assert(first_milestone(items, title) == first_milestone(rest, title));
            assert forall|i: int| 0 <= i < rest.len() implies #[trigger] rest[i] == items[i + 1] by {}
            if first_milestone(items, title) is Some {
                let n = first_milestone(items, title)->0;
                let i = choose|i: int|
                    0 <= i < rest.len() && milestone_titled(#[trigger] rest[i], title) && field_u64(
                        rest[i],
                        "number"@,
                    ) == Some(n) && forall|j: int| 0 <= j < i ==> !milestone_titled(#[trigger] rest[j], title);
                assert(milestone_titled(items[i + 1], title));
                assert forall|j: int| 0 <= j < i + 1 implies !milestone_titled(#[trigger] items[j], title) by {
                    if j > 0 {
                        assert(items[j] == rest[j - 1]);
                    }
                }
            } else {
                assert forall|i: int| 0 <= i < items.len() implies !milestone_titled(#[trigger] items[i], title) by {
                    if i > 0 {
                        assert(items[i] == rest[i - 1]);
                    }
                }
            }
        }
    }
}

} // verus!
