//! `accounts add|list|test|remove` and the parts that `login` shares with `accounts add`.
use vstd::prelude::*;

use crate::account::identity::{spec_user, str_or_empty};
use crate::account::{account_label, oview};
use crate::cli::AccountsCommand;
use crate::config::{AccountConfig, Config, first_match};
use crate::error::{Error, ErrorCode, ErrorV, err, with_fix};
use crate::json::{Json, JsonV, json_fields_view, json_seq_view, json_view, jstr_of, lemma_fields_view, lemma_seq_view};
use crate::text::{
    concat, concat3, eq_ignore_ascii_case, eq_ignore_case, is_blank, is_blank_str, owned, push_str,
    to_lowercase, trim, trim_str, unicode_lower,
};

verus! {

fn field(k: &str, v: Json) -> (r: (String, Json))
    ensures
        r.0@ == k@,
        r.1 == v,
{
    (owned(k), v)
}

/// The name an account is stored under: the given name, trimmed, which must not be empty.
pub fn account_name(name: &str) -> (r: Result<String, Error>)
    ensures
        trim(name@).len() > 0 ==> (r is Ok && r->Ok_0@ == trim(name@)),
        trim(name@).len() == 0 ==> (r is Err && r->Err_0@ == err(
            ErrorCode::InvalidInput,
            "An account name is required."@,
        )),
{
    let n = trim_str(name);
    if n.as_str().is_empty() {
        Err(Error::invalid(owned("An account name is required.")))
    } else {
        Ok(n)
    }
}

/// The remediation for an account that already exists, as `login` or `accounts add` words it.
pub open spec fn exists_fix(existing: Seq<char>, login: bool) -> Seq<char> {
    if login {
        "Use --force to replace its token: gh-issue-import login "@ + existing + " --force"@
    } else {
        "Pick a different name, or replace its token: gh-issue-import accounts add "@ + existing
            + " --token <token> --force"@
    }
}

/// Whether storing a token under `name` goes ahead: an account of that name in any ASCII case
/// must not exist unless `force` replaces it. The token is then stored under the existing
/// account's own name, and `replaced` tells whether one existed.
pub open spec fn spec_store_target(c: Seq<(String, AccountConfig)>, name: Seq<char>, force: bool, login: bool) -> Result<
    (Seq<char>, bool),
    ErrorV,
> {
    match first_match(c, name) {
        Some(i) => if force {
            Ok((c[i].0@, true))
        } else {
            Err(
                with_fix(
                    err(
                        ErrorCode::InvalidInput,
                        "An account named '"@ + c[i].0@ + "' already exists."@,
                    ),
                    exists_fix(c[i].0@, login),
                ),
            )
        },
        None => Ok((name, false)),
    }
}

/// Checks whether a token may be stored under `name`, and under which name.
pub fn store_target(config: &Config, name: &str, force: bool, login: bool) -> (r: Result<(String, bool), Error>)
    ensures
        match spec_store_target(config@, name@, force, login) {
            Ok((n, replaced)) => r is Ok && r->Ok_0.0@ == n && r->Ok_0.1 == replaced,
            Err(e) => r is Err && r->Err_0@ == e,
        },
{
    match config.find(name) {
        Some((existing, _)) => {
            if force {
                Ok((existing.clone(), true))
            } else {
                let msg = concat3("An account named '", existing.as_str(), "' already exists.");
                let fix = if login {
                    let mut f = concat(
                        "Use --force to replace its token: gh-issue-import login ",
                        existing.as_str(),
                    );
                    push_str(&mut f, " --force");
                    f
                } else {
                    let mut f = concat(
                        "Pick a different name, or replace its token: gh-issue-import accounts add ",
                        existing.as_str(),
                    );
                    push_str(&mut f, " --token <token> --force");
                    f
                };
                Err(Error::invalid(msg).fix(fix))
            }
        },
        None => Ok((owned(name), false)),
    }
}

/// A token given on the command line, trimmed, unless it is blank.
pub fn given_token(token: Option<&str>) -> (r: Option<String>)
    ensures
        match token {
            Some(t) => if is_blank(t@) {
                r is None
            } else {
                r is Some && r->0@ == trim(t@)
            },
            None => r is None,
        },
{
    match token {
        Some(t) => {
            let t = trim_str(t);
            if t.as_str().is_empty() {
                None
            } else {
                Some(t)
            }
        },
        None => None,
    }
}

/// The token read from a line of standard input: trimmed, and not empty.
pub fn stdin_token(line: &str) -> (r: Result<String, Error>)
    ensures
        !is_blank(line@) ==> (r is Ok && r->Ok_0@ == trim(line@)),
        is_blank(line@) ==> (r is Err && r->Err_0@ == err(
            ErrorCode::InvalidInput,
            "--api-key-stdin was given but stdin was empty."@,
        )),
{
    let t = trim_str(line);
    if t.as_str().is_empty() {
        Err(Error::invalid(owned("--api-key-stdin was given but stdin was empty.")))
    } else {
        Ok(t)
    }
}

/// The error for a token that is neither given nor can be prompted for.
pub fn no_terminal_for_token(name: &str, login: bool) -> (r: Error)
    ensures
        r@ == with_fix(
            err(ErrorCode::InvalidInput, "No token given and no terminal to prompt on."@),
            if login {
                "pbpaste | gh-issue-import login "@ + name@ + " --api-key-stdin"@
            } else {
                "pbpaste | gh-issue-import accounts add "@ + name@ + " --api-key-stdin"@
            },
        ),
{
    let fix = if login {
        concat3("pbpaste | gh-issue-import login ", name, " --api-key-stdin")
    } else {
        concat3("pbpaste | gh-issue-import accounts add ", name, " --api-key-stdin")
    };
    Error::invalid(owned("No token given and no terminal to prompt on.")).fix(fix)
}

/// The record for an account verified as the `/user` answer `me` (or not verified, when
/// `me` is `None`), added at time `now`.
pub fn account_record(me: Option<&Json>, now: &str) -> (r: AccountConfig)
    ensures
        r.added_at@ == now@,
        match me {
            Some(m) => r.user@ == spec_user(m@) && r.name@ == str_or_empty(m@, "name"@) && r.email@
                == str_or_empty(m@, "email"@),
            None => r.user@.len() == 0 && r.name@.len() == 0 && r.email@.len() == 0,
        },
{
    match me {
        Some(m) => AccountConfig {
            user: crate::account::identity::user(m),
            name: crate::account::identity::name(m),
            email: crate::account::identity::email(m),
            added_at: owned(now),
        },
        None => AccountConfig {
            user: String::new(),
            name: String::new(),
            email: String::new(),
            added_at: owned(now),
        },
    }
}

/// The report after storing a token.
pub open spec fn spec_stored_report(
    status: Seq<char>,
    name: Seq<char>,
    a: AccountConfig,
    verified: bool,
    secret_store: Seq<char>,
    config_dir: Seq<char>,
) -> JsonV {
    JsonV::Object(
        seq![
            ("status"@, JsonV::Str(status)),
            ("name"@, JsonV::Str(name)),
            ("user"@, JsonV::Str(a.user@)),
            ("displayName"@, JsonV::Str(a.name@)),
            ("email"@, JsonV::Str(a.email@)),
            ("verified"@, JsonV::Bool(verified)),
            ("secretStore"@, JsonV::Str(secret_store)),
            ("configDir"@, JsonV::Str(config_dir)),
            (
                "nextStep"@,
                JsonV::Str(
                    "gh-issue-import import issues.yaml --repo owner/repo --account "@ + name,
                ),
            ),
        ],
    )
}

/// The report after storing a token under `name`; `status` is `added`, `replaced` or
/// `logged_in`.
pub fn stored_report(
    status: &str,
    name: &str,
    a: &AccountConfig,
    verified: bool,
    secret_store: &str,
    config_dir: &str,
) -> (r: Json)
    ensures
        r@ == spec_stored_report(status@, name@, *a, verified, secret_store@, config_dir@),
{
    let mut f: Vec<(String, Json)> = Vec::new();
    f.push(field("status", jstr_of(status)));
    f.push(field("name", jstr_of(name)));
    f.push(field("user", Json::Str(a.user.clone())));
    f.push(field("displayName", Json::Str(a.name.clone())));
    f.push(field("email", Json::Str(a.email.clone())));
    f.push(field("verified", Json::Bool(verified)));
    f.push(field("secretStore", jstr_of(secret_store)));
    f.push(field("configDir", jstr_of(config_dir)));
    f.push(
        field(
            "nextStep",
            Json::Str(concat("gh-issue-import import issues.yaml --repo owner/repo --account ", name)),
        ),
    );
    proof {
        lemma_fields_view(f@);
        assert(json_fields_view(f@) =~= match spec_stored_report(
            status@,
            name@,
            *a,
            verified,
            secret_store@,
            config_dir@,
        ) {
            JsonV::Object(x) => x,
            _ => Seq::empty(),
        });
    }
    Json::Object(f)
}

/// What the keystore gave for an account's token.
pub enum StoredToken {
    Present(String),
    Missing,
    Unreadable,
}

/// The token to check against GitHub, when the listing checks tokens and one is stored.
pub open spec fn spec_token_to_check(stored: StoredToken, check: bool) -> Option<Seq<char>> {
    match stored {
        StoredToken::Present(t) => if check && !is_blank(t@) {
            Some(t@)
        } else {
            None
        },
        _ => None,
    }
}

/// The token to check against GitHub, when the listing checks tokens and one is stored.
pub fn token_to_check(stored: &StoredToken, check: bool) -> (r: Option<String>)
    ensures
        oview_string(r) == spec_token_to_check(*stored, check),
{
    match stored {
        StoredToken::Present(t) => if check && !is_blank_str(t.as_str()) {
            Some(t.clone())
        } else {
            None
        },
        _ => None,
    }
}

pub open spec fn oview_string(o: Option<String>) -> Option<Seq<char>> {
    crate::error::ostr(o)
}

/// The status of an account's token in the listing: from the keystore alone, or, when tokens
/// are checked, from `outcome`, the result of asking GitHub who the token belongs to (`Ok`,
/// or the class of the error).
pub open spec fn spec_status_of(
    stored: StoredToken,
    check: bool,
    outcome: Option<Result<(), ErrorCode>>,
) -> Seq<char> {
    match stored {
        StoredToken::Unreadable => "unreadable"@,
        StoredToken::Missing => "missing_token"@,
        StoredToken::Present(t) => if is_blank(t@) {
            "missing_token"@
        } else if !check {
            "stored"@
        } else {
            match outcome {
                Some(Ok(())) => "valid"@,
                Some(Err(ErrorCode::AuthRequired)) => "rejected"@,
                _ => "unreachable"@,
            }
        },
    }
}

/// The status of an account's token in the listing.
pub fn status_of(stored: &StoredToken, check: bool, outcome: Option<Result<(), ErrorCode>>) -> (r:
    String)
    ensures
        r@ == spec_status_of(*stored, check, outcome),
{
    match stored {
        StoredToken::Unreadable => owned("unreadable"),
        StoredToken::Missing => owned("missing_token"),
        StoredToken::Present(t) => if is_blank_str(t.as_str()) {
            owned("missing_token")
        } else if !check {
            owned("stored")
        } else {
            match outcome {
                Some(Ok(())) => owned("valid"),
                Some(Err(ErrorCode::AuthRequired)) => owned("rejected"),
                _ => owned("unreachable"),
            }
        },
    }
}

/// The listing line for an account.
pub open spec fn listed_account(e: (String, AccountConfig), status: Seq<char>) -> JsonV {
    JsonV::Object(
        seq![
            ("name"@, JsonV::Str(e.0@)),
            ("user"@, JsonV::Str(e.1.user@)),
            ("displayName"@, JsonV::Str(e.1.name@)),
            ("email"@, JsonV::Str(e.1.email@)),
            ("addedAt"@, JsonV::Str(e.1.added_at@)),
            ("tokenStatus"@, JsonV::Str(status)),
        ],
    )
}

/// The account listing, with one status per account.
pub open spec fn spec_list_report(
    accounts: Seq<(String, AccountConfig)>,
    statuses: Seq<Seq<char>>,
    secret_store: Seq<char>,
    config_dir: Seq<char>,
) -> JsonV {
    JsonV::Object(
        seq![
            ("count"@, JsonV::UInt(accounts.len() as u64)),
            (
                "accounts"@,
                JsonV::Array(
                    Seq::new(accounts.len(), |i: int| listed_account(accounts[i], statuses[i])),
                ),
            ),
            ("secretStore"@, JsonV::Str(secret_store)),
            ("configDir"@, JsonV::Str(config_dir)),
        ],
    )
}

/// The account listing: the accounts in the order given (by name, from the configuration),
/// each with its token status.
pub fn list_report(
    accounts: &Vec<(String, AccountConfig)>,
    statuses: &Vec<String>,
    secret_store: &str,
    config_dir: &str,
) -> (r: Json)
    requires
        accounts.len() == statuses.len(),
    ensures
        r@ == spec_list_report(accounts@, statuses.deep_view(), secret_store@, config_dir@),
{
    let mut lines: Vec<Json> = Vec::new();
    let mut i: usize = 0;
    while i < accounts.len()
        invariant
            i <= accounts.len(),
            accounts.len() == statuses.len(),
            lines@.len() == i,
            forall|k: int|
                0 <= k < i ==> json_view(#[trigger] lines@[k]) == listed_account(
                    accounts@[k],
                    statuses.deep_view()[k],
                ),
        decreases accounts.len() - i,
    {
        let e = &accounts[i];
        let mut f: Vec<(String, Json)> = Vec::new();
        f.push(field("name", Json::Str(e.0.clone())));
        f.push(field("user", Json::Str(e.1.user.clone())));
        f.push(field("displayName", Json::Str(e.1.name.clone())));
        f.push(field("email", Json::Str(e.1.email.clone())));
        f.push(field("addedAt", Json::Str(e.1.added_at.clone())));
        f.push(field("tokenStatus", Json::Str(statuses[i].clone())));
        proof {
            lemma_fields_view(f@);
            assert(statuses.deep_view()[i as int] == statuses@[i as int]@);
            assert(json_fields_view(f@) =~= match listed_account(
                accounts@[i as int],
                statuses.deep_view()[i as int],
            ) {
                JsonV::Object(x) => x,
                _ => Seq::empty(),
            });
        }
        lines.push(Json::Object(f));
        i = i + 1;
    }
    let mut f: Vec<(String, Json)> = Vec::new();
    f.push(field("count", Json::UInt(accounts.len() as u64)));
    proof {
        lemma_seq_view(lines@);
        assert(json_seq_view(lines@) =~= Seq::new(
            accounts@.len(),
            |k: int| listed_account(accounts@[k], statuses.deep_view()[k]),
        ));
    }
    f.push(field("accounts", Json::Array(lines)));
    f.push(field("secretStore", jstr_of(secret_store)));
    f.push(field("configDir", jstr_of(config_dir)));
    proof {
        lemma_fields_view(f@);
        assert(json_fields_view(f@) =~= match spec_list_report(
            accounts@,
            statuses.deep_view(),
            secret_store@,
            config_dir@,
        ) {
            JsonV::Object(x) => x,
            _ => Seq::empty(),
        });
    }
    Json::Object(f)
}

/// Whether the token now authenticates as someone else than the user the account was
/// registered as (compared in any ASCII case; unknown users never differ).
pub open spec fn identity_drift(registered: Seq<char>, login: Seq<char>) -> bool {
    !is_blank(registered) && !is_blank(login) && !eq_ignore_case(login, registered)
}

/// The report of `accounts test`: the account, who the token authenticates as, the full
/// answer, and a warning when that is not the registered user.
pub open spec fn spec_test_report(name: Seq<char>, registered: Seq<char>, me: JsonV) -> JsonV {
    let base = seq![
        ("name"@, JsonV::Str(name)),
        ("user"@, JsonV::Str(spec_user(me))),
        ("displayName"@, JsonV::Str(str_or_empty(me, "name"@))),
        ("email"@, JsonV::Str(str_or_empty(me, "email"@))),
        ("tokenStatus"@, JsonV::Str("valid"@)),
        ("githubUser"@, me),
    ];
    JsonV::Object(
        if identity_drift(registered, spec_user(me)) {
            base.push(
                (
                    "warning"@,
                    JsonV::Str(
                        "Account was registered as '"@ + registered
                            + "', but the stored token now authenticates as '"@ + spec_user(me)
                            + "'."@,
                    ),
                ),
            )
        } else {
            base
        },
    )
}

/// The report of `accounts test` for the account `name`, registered as `registered`, whose
/// token authenticates as the `/user` answer `me`.
pub fn test_report(name: &str, registered: &str, me: Json) -> (r: Json)
    ensures
        r@ == spec_test_report(name@, registered@, me@),
{
    let login = crate::account::identity::user(&me);
    let display = crate::account::identity::name(&me);
    let email = crate::account::identity::email(&me);
    let drift = !is_blank_str(registered) && !is_blank_str(login.as_str())
        && !eq_ignore_ascii_case(login.as_str(), registered);
    let ghost mv = me@;
    let mut f: Vec<(String, Json)> = Vec::new();
    f.push(field("name", jstr_of(name)));
    f.push(field("user", Json::Str(login.clone())));
    f.push(field("displayName", Json::Str(display)));
    f.push(field("email", Json::Str(email)));
    f.push(field("tokenStatus", jstr_of("valid")));
    f.push(field("githubUser", me));
    if drift {
        let mut w = concat3("Account was registered as '", registered, "', but the stored token now authenticates as '");
        push_str(&mut w, login.as_str());
        push_str(&mut w, "'.");
        f.push(field("warning", Json::Str(w)));
    }
    proof {
        lemma_fields_view(f@);
        assert(json_fields_view(f@) =~= match spec_test_report(name@, registered@, mv) {
            JsonV::Object(x) => x,
            _ => Seq::empty(),
        });
    }
    Json::Object(f)
}

/// The account that `accounts remove` removes: the one named in any ASCII case.
pub fn remove_target(config: &Config, requested: &str) -> (r: Result<(String, AccountConfig), Error>)
    ensures
        match first_match(config@, requested@) {
            Some(i) => (r matches Ok((n, a)) && n == config@[i].0 && a == config@[i].1),
            None => r is Err && r->Err_0@ == with_fix(
                err(ErrorCode::NoAccount, "No account named '"@ + requested@ + "'."@),
                "gh-issue-import accounts list"@,
            ),
        },
{
    match config.find(requested) {
        Some((n, a)) => Ok((n.clone(), a.duplicate())),
        None => Err(
            Error::new(ErrorCode::NoAccount, concat3("No account named '", requested, "'.")).fix(
                owned("gh-issue-import accounts list"),
            ),
        ),
    }
}

/// The error for a removal that needs confirmation when no terminal can ask for it.
pub fn no_terminal_to_confirm(name: &str) -> (r: Error)
    ensures
        r@ == with_fix(
            err(
                ErrorCode::InvalidInput,
                "Removing '"@ + name@ + "' needs confirmation and there is no terminal to ask on."@,
            ),
            "gh-issue-import accounts remove "@ + name@ + " --yes"@,
        ),
{
    let mut msg = concat3(
        "Removing '",
        name,
        "' needs confirmation and there is no terminal to ask on.",
    );
    Error::invalid(msg).fix(concat3("gh-issue-import accounts remove ", name, " --yes"))
}

/// The confirmation question for removing an account.
pub fn confirm_prompt(name: &str, acct: &AccountConfig) -> (r: String)
    ensures
        r@ == "Remove account "@ + (if is_blank(acct.user@) {
            name@
        } else {
            name@ + " ("@ + acct.user@ + ")"@
        }) + "? [y/N] "@,
{
    let mut r = owned("Remove account ");
    if is_blank_str(acct.user.as_str()) {
        push_str(&mut r, name);
    } else {
        push_str(&mut r, name);
        push_str(&mut r, " (");
        push_str(&mut r, acct.user.as_str());
        push_str(&mut r, ")");
    }
    push_str(&mut r, "? [y/N] ");
    r
}

/// Whether an answer to the confirmation question is yes: `y` or `yes` in any case, with
/// surrounding whitespace ignored.
pub fn confirmed(answer: &str) -> (r: bool)
    ensures
        r == (unicode_lower(trim(answer@)) == "y"@ || unicode_lower(trim(answer@)) == "yes"@),
{
    let t = trim_str(answer);
    let l = to_lowercase(t.as_str());
    crate::text::str_eq(l.as_str(), "y") || crate::text::str_eq(l.as_str(), "yes")
}

/// The error for a removal that was not confirmed.
pub fn cancelled() -> (r: Error)
    ensures
        r@ == err(ErrorCode::InvalidInput, "Cancelled."@),
{
    Error::invalid(owned("Cancelled."))
}

/// The report after removing an account.
pub open spec fn spec_removed_report(name: Seq<char>, user: Seq<char>) -> JsonV {
    JsonV::Object(
        seq![
            ("status"@, JsonV::Str("removed"@)),
            ("name"@, JsonV::Str(name)),
            ("user"@, JsonV::Str(user)),
            (
                "note"@,
                JsonV::Str(
                    "The token was deleted locally. Revoke it at https://github.com/settings/tokens if desired."@,
                ),
            ),
        ],
    )
}

/// The report after removing the account `name`, registered as `user`.
pub fn removed_report(name: &str, user: &str) -> (r: Json)
    ensures
        r@ == spec_removed_report(name@, user@),
{
    let mut f: Vec<(String, Json)> = Vec::new();
    f.push(field("status", jstr_of("removed")));
    f.push(field("name", jstr_of(name)));
    f.push(field("user", jstr_of(user)));
    f.push(
        field(
            "note",
            jstr_of(
                "The token was deleted locally. Revoke it at https://github.com/settings/tokens if desired.",
            ),
        ),
    );
    proof {
        lemma_fields_view(f@);
        assert(json_fields_view(f@) =~= match spec_removed_report(name@, user@) {
            JsonV::Object(x) => x,
            _ => Seq::empty(),
        });
    }
    Json::Object(f)
}

/// Adding an account and then removing it by the same name leaves no account of that name,
/// and keeps the other accounts as they were, in their order.
pub proof fn law_add_then_remove(c: Seq<(String, AccountConfig)>, name: String, a: AccountConfig)
    requires
        crate::config::names_unique(c),
    ensures
        crate::config::spec_remove(crate::config::spec_insert(c, name, a), name@)
            == crate::config::spec_remove(c, name@),
        forall|i: int|
            0 <= i < crate::config::spec_remove(c, name@).len() ==> crate::config::spec_remove(
                c,
                name@,
            )[i].0@ != name@,
{
    reveal(Seq::filter);
    let s = crate::config::spec_insert(c, name, a);
    let p = crate::config::other_than(name@);
    if exists|i: int| 0 <= i < c.len() && c[i].0@ == name@ {
        let i = choose|i: int| 0 <= i < c.len() && c[i].0@ == name@;
        lemma_filter_update_same(c, i, (name, a), p);
    } else {
        assert(s == c.push((name, a)));
        assert(s.drop_last() == c);
    }
    assert forall|i: int| 0 <= i < c.filter(p).len() implies c.filter(p)[i].0@ != name@ by {
        c.lemma_filter_pred(p, i);
    }
}

proof fn lemma_filter_update_same(
    c: Seq<(String, AccountConfig)>,
    i: int,
    e: (String, AccountConfig),
    p: spec_fn((String, AccountConfig)) -> bool,
)
    requires
        0 <= i < c.len(),
        !p(c[i]),
        !p(e),
    ensures
        c.update(i, e).filter(p) == c.filter(p),
    decreases c.len(),
{
    reveal(Seq::filter);
    let u = c.update(i, e);
    if i == c.len() - 1 {
        assert(u.drop_last() == c.drop_last());
    } else {
        lemma_filter_update_same(c.drop_last(), i, e, p);
        assert(u.drop_last() == c.drop_last().update(i, e));
        assert(u.last() == c.last());
    }
}


/// An `accounts` subcommand with its inputs checked: the account name trimmed and the token,
/// when one was given, trimmed.
pub enum AccountsTask {
    /// Store `token` (prompted for when `None`) under `name`.
    Add { name: String, token: Option<String>, force: bool, skip_token_check: bool },
    List { check: bool },
    Test { name: String },
    Remove { name: String, yes: bool },
}

/// The token an `add` goes on with: the line read from stdin under `--api-key-stdin`, else
/// the `--token` value.
pub open spec fn spec_add_token(token: Option<String>, api_key_stdin: bool, piped: Option<Seq<char>>) -> Result<
    Option<Seq<char>>,
    ErrorV,
> {
    if api_key_stdin {
        let line = match piped {
            Some(l) => l,
            None => Seq::empty(),
        };
        if is_blank(line) {
            Err(err(ErrorCode::InvalidInput, "--api-key-stdin was given but stdin was empty."@))
        } else {
            Ok(Some(trim(line)))
        }
    } else {
        match token {
            Some(t) => if is_blank(t@) {
                Ok(None)
            } else {
                Ok(Some(trim(t@)))
            },
            None => Ok(None),
        }
    }
}

/// Checks the inputs of an `accounts` subcommand; `piped` is the line read from stdin, which
/// is read only under `--api-key-stdin`. The stdin token is taken before the name is checked.
pub fn run(c: &AccountsCommand, piped: Option<&str>) -> (r: Result<AccountsTask, Error>)
    ensures
        match c {
            AccountsCommand::Add { name, token, api_key_stdin, force, skip_token_check } =>
                match spec_add_token(*token, *api_key_stdin, oview(piped)) {
                Err(e) => r is Err && r->Err_0@ == e,
                Ok(t) => if trim(name@).len() == 0 {
                    r is Err && r->Err_0@ == err(ErrorCode::InvalidInput, "An account name is required."@)
                } else {
                    r matches Ok(AccountsTask::Add { name: n, token: t2, force: f, skip_token_check: k })
                        && n@ == trim(name@) && oview_string(t2) == t && f == *force
                        && k == *skip_token_check
                },
            },
            AccountsCommand::List { check } => r matches Ok(AccountsTask::List { check: k }) && k
                == *check,
            AccountsCommand::Test { name } => r matches Ok(AccountsTask::Test { name: n }) && n@
                == name@,
            AccountsCommand::Remove { name, yes } => r matches Ok(
                AccountsTask::Remove { name: n, yes: y },
            ) && n@ == name@ && y == *yes,
        },
{
    match c {
        AccountsCommand::Add { name, token, api_key_stdin, force, skip_token_check } => {
            let t = if *api_key_stdin {
                let line = match piped {
                    Some(l) => l,
                    None => {
                        proof {
                            reveal_strlit("");
                        }
                        ""
                    },
                };
                assert(line@ == match oview(piped) {
                    Some(l) => l,
                    None => Seq::<char>::empty(),
                });
                match stdin_token(line) {
                    Ok(t) => Some(t),
                    Err(e) => {
                        return Err(e);
                    },
                }
            } else {
                match token {
                    Some(t) => given_token(Some(t.as_str())),
                    None => None,
                }
            };
            let n = match account_name(name.as_str()) {
                Ok(n) => n,
                Err(e) => {
                    return Err(e);
                },
            };
            Ok(AccountsTask::Add { name: n, token: t, force: *force, skip_token_check: *skip_token_check })
        },
        AccountsCommand::List { check } => Ok(AccountsTask::List { check: *check }),
        AccountsCommand::Test { name } => Ok(AccountsTask::Test { name: name.clone() }),
        AccountsCommand::Remove { name, yes } => Ok(AccountsTask::Remove { name: name.clone(), yes: *yes }),
    }
}

} // verus!
