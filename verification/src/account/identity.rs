//! The identity that a GitHub `/user` answer describes.
use vstd::prelude::*;

use crate::json::{Json, JsonV, field_str, or_empty};
use crate::text::owned;

verus! {

/// A string field of the answer, else the empty string.
pub open spec fn str_or_empty(me: JsonV, key: Seq<char>) -> Seq<char> {
    or_empty(field_str(me, key))
}

/// The login: the `login` field, else the `user` field, else empty.
pub open spec fn spec_user(me: JsonV) -> Seq<char> {
    match field_str(me, "login"@) {
        Some(s) => s,
        None => str_or_empty(me, "user"@),
    }
}

fn field_or_empty(me: &Json, key: &str) -> (r: String)
    ensures
        r@ == str_or_empty(me@, key@),
{
    match me.str_field(key) {
        Some(s) => s,
        None => String::new(),
    }
}

/// The login the answer names.
pub fn user(me: &Json) -> (r: String)
    ensures
        r@ == spec_user(me@),
{
    match me.str_field("login") {
        Some(s) => s,
        None => field_or_empty(me, "user"),
    }
}

/// The display name the answer names.
pub fn name(me: &Json) -> (r: String)
    ensures
        r@ == str_or_empty(me@, "name"@),
{
    field_or_empty(me, "name")
}

/// The e-mail address the answer names.
pub fn email(me: &Json) -> (r: String)
    ensures
        r@ == str_or_empty(me@, "email"@),
{
    field_or_empty(me, "email")
}

/// A short description: the login, else the e-mail address, else the display name.
pub fn describe(me: &Json) -> (r: String)
    ensures
        r@ == if spec_user(me@).len() > 0 {
            spec_user(me@)
        } else if str_or_empty(me@, "email"@).len() > 0 {
            str_or_empty(me@, "email"@)
        } else {
            str_or_empty(me@, "name"@)
        },
{
    let u = user(me);
    if !u.as_str().is_empty() {
        return u;
    }
    let e = email(me);
    if !e.as_str().is_empty() {
        return e;
    }
    name(me)
}

} // verus!
