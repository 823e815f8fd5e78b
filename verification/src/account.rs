//! Choosing the account a command runs as. The account is always named explicitly: there is
//! no stored default and no fallback to a lone configured account.
use vstd::prelude::*;

use crate::config::{AccountConfig, Config, first_match, sort_by_name};
use crate::error::{Error, ErrorCode, ErrorV, err, with_detail, with_fix};
use crate::text::{
    concat, concat3, is_blank, is_blank_str, join, owned, push_str, trim, trim_str,
};

pub mod identity;

verus! {

/// An account ready to use: its name, its record, and its token.
#[derive(Debug)]
pub struct Resolved {
    pub name: String,
    pub config: AccountConfig,
    pub token: String,
}

/// How an account is listed: its name, and the user it was registered as when known.
pub open spec fn account_label(e: (String, AccountConfig)) -> Seq<char> {
    if is_blank(e.1.user@) {
        e.0@
    } else {
        e.0@ + " ("@ + e.1.user@ + ")"@
    }
}

/// The labels of the accounts, in order.
pub open spec fn labels(s: Seq<(String, AccountConfig)>) -> Seq<Seq<char>> {
    s.map_values(|e: (String, AccountConfig)| account_label(e))
}

/// The description of the configured accounts that errors carry as detail.
pub open spec fn spec_describe(c: Seq<(String, AccountConfig)>) -> Seq<char> {
    if c.len() == 0 {
        "No accounts are configured yet. Run 'gh-issue-import accounts add <name> --token <token>'."@
    } else {
        "Configured accounts: "@ + join(labels(sort_by_name(c)), ", "@)
    }
}

fn label(e: &(String, AccountConfig)) -> (r: String)
    ensures
        r@ == account_label(*e),
{
    if is_blank_str(e.1.user.as_str()) {
        e.0.clone()
    } else {
        let mut r = concat3(e.0.as_str(), " (", e.1.user.as_str());
        push_str(&mut r, ")");
        r
    }
}

/// Describes the configured accounts, ordered by name.
pub fn describe(config: &Config) -> (r: String)
    ensures
        r@ == spec_describe(config@),
{
    if config.is_empty() {
        return owned(
            "No accounts are configured yet. Run 'gh-issue-import accounts add <name> --token <token>'.",
        );
    }
    let sorted = config.sorted();
    let ghost ls = labels(sorted@);
    let mut listed = String::new();
    let mut i: usize = 0;
    while i < sorted.len()
        invariant
            i <= sorted.len(),
            ls == labels(sorted@),
            ls.len() == sorted.len(),
            listed@ == join(ls.take(i as int), ", "@),
        decreases sorted.len() - i,
    {
        let l = label(&sorted[i]);
        assert(ls.take(i + 1).drop_last() =~= ls.take(i as int));
        assert(ls.take(i + 1).last() == l@);
        if i > 0 {
            push_str(&mut listed, ", ");
        } else {
            assert(ls.take(i as int).len() == 0);
        }
        push_str(&mut listed, l.as_str());
        i = i + 1;
    }
    assert(ls.take(sorted.len() as int) == ls);
    concat("Configured accounts: ", listed.as_str())
}

/// The account name asked for: the trimmed request, when it is not blank.
pub open spec fn requested_name(requested: Option<Seq<char>>) -> Option<Seq<char>> {
    match requested {
        Some(r) => if trim(r).len() > 0 {
            Some(trim(r))
        } else {
            None
        },
        None => None,
    }
}

/// The error for a command run without an account.
pub open spec fn no_account_error(c: Seq<(String, AccountConfig)>) -> ErrorV {
    with_fix(
        with_detail(
            err(ErrorCode::NoAccount, "No account specified. Pass --account <name>."@),
            spec_describe(c),
        ),
        "gh-issue-import accounts list"@,
    )
}

/// The error for an account name that no account has.
pub open spec fn unknown_account_error(c: Seq<(String, AccountConfig)>, name: Seq<char>) -> ErrorV {
    with_fix(
        with_detail(
            err(ErrorCode::NoAccount, "No account named '"@ + name + "'."@),
            spec_describe(c),
        ),
        "gh-issue-import accounts list"@,
    )
}

/// The error for an account whose token is missing from the keystore.
pub open spec fn no_token_error(name: Seq<char>) -> ErrorV {
    with_fix(
        with_detail(
            err(ErrorCode::AuthRequired, "Account '"@ + name + "' has no stored token."@),
            "The config entry exists but the keystore has nothing under it."@,
        ),
        "gh-issue-import accounts add "@ + name + " --token <token>"@,
    )
}

/// The index of the account a request names, or the error for it.
pub open spec fn spec_select(c: Seq<(String, AccountConfig)>, requested: Option<Seq<char>>) -> Result<
    int,
    ErrorV,
> {
    match requested_name(requested) {
        None => Err(no_account_error(c)),
        Some(n) => match first_match(c, n) {
            Some(i) => Ok(i),
            None => Err(unknown_account_error(c, n)),
        },
    }
}

/// The view of an optional string slice.
pub open spec fn oview(o: Option<&str>) -> Option<Seq<char>> {
    match o {
        Some(s) => Some(s@),
        None => None,
    }
}

/// The account that `requested` names (in any ASCII case), with its stored name and record.
pub fn select_account(config: &Config, requested: Option<&str>) -> (r: Result<
    (String, AccountConfig),
    Error,
>)
    ensures
        match spec_select(config@, oview(requested)) {
            Ok(i) => (r matches Ok((n, a)) && n == config@[i].0 && a == config@[i].1),
            Err(e) => r is Err && r->Err_0@ == e,
        },
{
    let name = match requested {
        Some(r) => trim_str(r),
        None => {
            return Err(
                Error::new(
                    ErrorCode::NoAccount,
                    owned("No account specified. Pass --account <name>."),
                ).detail(describe(config)).fix(owned("gh-issue-import accounts list")),
            );
        },
    };
    if name.as_str().is_empty() {
        return Err(
            Error::new(
                ErrorCode::NoAccount,
                owned("No account specified. Pass --account <name>."),
            ).detail(describe(config)).fix(owned("gh-issue-import accounts list")),
        );
    }
    match config.find(name.as_str()) {
        Some((n, a)) => Ok((n.clone(), a.duplicate())),
        None => {
            let mut msg = concat3("No account named '", name.as_str(), "'.");
            Err(
                Error::new(ErrorCode::NoAccount, msg).detail(describe(config)).fix(
                    owned("gh-issue-import accounts list"),
                ),
            )
        },
    }
}

/// Resolves the account that `requested` names, where `stored` is what the keystore holds for
/// that account: a token that is missing or blank is an error.
pub fn resolve(config: &Config, requested: Option<&str>, stored: Option<String>) -> (r: Result<
    Resolved,
    Error,
>)
    ensures
        match spec_select(config@, oview(requested)) {
            Ok(i) => match stored {
                Some(t) => if is_blank(t@) {
                    r is Err && r->Err_0@ == no_token_error(config@[i].0@)
                } else {
                    r matches Ok(res) && res.name == config@[i].0 && res.config == config@[i].1
                        && res.token == t
                },
                None => r is Err && r->Err_0@ == no_token_error(config@[i].0@),
            },
            Err(e) => r is Err && r->Err_0@ == e,
        },
{
    let (name, account) = match select_account(config, requested) {
        Ok(x) => x,
        Err(e) => {
            return Err(e);
        },
    };
    match stored {
        Some(token) => {
            if !is_blank_str(token.as_str()) {
                return Ok(Resolved { name, config: account, token });
            }
        },
        None => {},
    }
    let msg = concat3("Account '", name.as_str(), "' has no stored token.");
    let fix = concat3("gh-issue-import accounts add ", name.as_str(), " --token <token>");
    Err(
        Error::new(ErrorCode::AuthRequired, msg).detail(
            owned("The config entry exists but the keystore has nothing under it."),
        ).fix(fix),
    )
}

/// A command run without naming an account fails with `no_account`, whatever is configured.
pub proof fn law_account_is_explicit(c: Seq<(String, AccountConfig)>, requested: Option<Seq<char>>)
    requires
        requested is None || is_blank(requested->0),
    ensures
        spec_select(c, requested) == Err::<int, ErrorV>(no_account_error(c)),
        no_account_error(c).code == ErrorCode::NoAccount,
{
}

/// An account is found by its name in any ASCII case, with surrounding whitespace ignored.
pub proof fn law_select_ignores_case(c: Seq<(String, AccountConfig)>, requested: Seq<char>, i: int)
    requires
        0 <= i < c.len(),
        !is_blank(requested),
        crate::text::eq_ignore_case(c[i].0@, trim(requested)),
        forall|j: int| 0 <= j < i ==> !crate::text::eq_ignore_case(c[j].0@, trim(requested)),
    ensures
        spec_select(c, Some(requested)) == Ok::<int, ErrorV>(i),
{
    lemma_first_match_at(c, trim(requested), i);
}

proof fn lemma_first_match_at(c: Seq<(String, AccountConfig)>, n: Seq<char>, i: int)
    requires
        0 <= i < c.len(),
        crate::text::eq_ignore_case(c[i].0@, n),
        forall|j: int| 0 <= j < i ==> !crate::text::eq_ignore_case(c[j].0@, n),
    ensures
        first_match(c, n) == Some(i),
    decreases i,
{
    if i > 0 {
        let t = c.drop_first();
        assert forall|j: int| 0 <= j < i - 1 implies !crate::text::eq_ignore_case(t[j].0@, n) by {
            assert(t[j] == c[j + 1]);
        }
        assert(!crate::text::eq_ignore_case(c[0].0@, n));
        lemma_first_match_at(t, n, i - 1);
    }
}

} // verus!
