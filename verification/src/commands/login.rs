//! `login`: stores a token for an account, as `accounts add` does, with the account name
//! defaulting to `default` and a browser page to create the token.
use vstd::prelude::*;

use crate::text::{concat, concat3, owned, push_str};

verus! {

/// The GitHub page that creates a token with the `repo` scope.
pub fn tokens_url() -> (r: &'static str)
    ensures
        r@ == "https://github.com/settings/tokens/new?scopes=repo&description=gh-issue-import"@,
{
    "https://github.com/settings/tokens/new?scopes=repo&description=gh-issue-import"
}

/// The line telling a terminal user that the login worked.
pub fn login_message(user: &str, name: &str) -> (r: String)
    ensures
        r@ == if user@.len() > 0 {
            "Successfully logged in as "@ + user@ + " to account '"@ + name@ + "'."@
        } else {
            "Successfully logged in to account '"@ + name@ + "'."@
        },
{
    if !user.is_empty() {
        let mut r = concat3("Successfully logged in as ", user, " to account '");
        push_str(&mut r, name);
        push_str(&mut r, "'.");
        r
    } else {
        concat3("Successfully logged in to account '", name, "'.")
    }
}

} // verus!
