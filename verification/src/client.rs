//! What the GitHub REST client computes: request paths and URLs, percent-encoding, and the
//! mapping of HTTP failures to error classes. The transport itself lives with the caller.
use vstd::prelude::*;

use vstd::utf8::encode_utf8;

use crate::error::{Error, ErrorCode, ErrorV, err, with_detail, with_fix};
use crate::json::{Json, JsonV, or_empty};
use crate::serde_calls::{json_str_field, json_str_field_of};
use crate::text::{
    ascii_lower_seq, ascii_lowercase, concat, concat3, contains_seq, contains_str, decimal,
    decimal_string, ends_with, ends_with_str, is_blank, is_blank_str, join, lossy_utf8,
    lossy_utf8_of, owned, push_char, push_str, skip_leading, strip_leading, chars_of, string_of,
    trim, trim_str,
};

verus! {

/// An RFC 3986 unreserved byte: `A-Z a-z 0-9 - _ . ~`.
pub open spec fn unreserved(b: u8) -> bool {
    ||| (65 <= b && b <= 90)
    ||| (97 <= b && b <= 122)
    ||| (48 <= b && b <= 57)
    ||| b == 45
    ||| b == 95
    ||| b == 46
    ||| b == 126
}

/// The upper-case hexadecimal digit for `d < 16`.
pub open spec fn hex_digit(d: nat) -> char {
    if d < 10 {
        ((48 + d) as u8) as char
    } else {
        ((55 + d) as u8) as char
    }
}

/// The encoding of one byte: itself when unreserved, else `%XX` in upper-case hex.
pub open spec fn seg_byte(b: u8) -> Seq<char> {
    if unreserved(b) {
        seq![b as char]
    } else {
        seq!['%', hex_digit((b / 16) as nat), hex_digit((b % 16) as nat)]
    }
}

/// The encoding of a byte string, byte by byte.
pub open spec fn seg_bytes(bs: Seq<u8>) -> Seq<char>
    decreases bs.len(),
{
    if bs.len() == 0 {
        Seq::empty()
    } else {
        seg_byte(bs[0]) + seg_bytes(bs.drop_first())
    }
}

/// The percent-encoding of the UTF-8 bytes of `s`.
pub open spec fn spec_seg(s: Seq<char>) -> Seq<char> {
    seg_bytes(encode_utf8(s))
}

proof fn lemma_seg_bytes_push(bs: Seq<u8>, b: u8)
    ensures
        seg_bytes(bs.push(b)) == seg_bytes(bs) + seg_byte(b),
    decreases bs.len(),
{
    if bs.len() == 0 {
        assert(bs.push(b).drop_first() =~= Seq::<u8>::empty());
        assert(seg_bytes(Seq::<u8>::empty()) == Seq::<char>::empty());
        assert(seg_bytes(bs.push(b)) =~= seg_byte(b));
    } else {
        lemma_seg_bytes_push(bs.drop_first(), b);
        assert(bs.push(b).drop_first() =~= bs.drop_first().push(b));
        assert(seg_bytes(bs.push(b)) =~= seg_bytes(bs) + seg_byte(b));
    }
}

fn hex_digit_char(d: u8) -> (c: char)
    requires
        d < 16,
    ensures
        c == hex_digit(d as nat),
{
    if d < 10 {
        (48 + d) as char
    } else {
        (55 + d) as char
    }
}

fn is_unreserved(b: u8) -> (r: bool)
    ensures
        r == unreserved(b),
{
    (65 <= b && b <= 90) || (97 <= b && b <= 122) || (48 <= b && b <= 57) || b == 45 || b == 95
        || b == 46 || b == 126
}

/// Percent-encodes one path segment or query value.
pub fn seg(s: &str) -> (r: String)
    ensures
        r@ == spec_seg(s@),
{
    let bytes = s.as_bytes();
    let mut out = String::new();
    let mut i: usize = 0;
    while i < bytes.len()
        invariant
            bytes@ == encode_utf8(s@),
            i <= bytes@.len(),
            out@ == seg_bytes(bytes@.take(i as int)),
        decreases bytes.len() - i,
    {
        let b = bytes[i];
        proof {
            lemma_seg_bytes_push(bytes@.take(i as int), b);
            assert(bytes@.take(i + 1) =~= bytes@.take(i as int).push(b));
        }
        if is_unreserved(b) {
            push_char(&mut out, b as char);
        } else {
            push_char(&mut out, '%');
            push_char(&mut out, hex_digit_char(b / 16));
            push_char(&mut out, hex_digit_char(b % 16));
        }
        assert(out@ =~= seg_bytes(bytes@.take(i + 1)));
        i = i + 1;
    }
    assert(bytes@.take(bytes@.len() as int) =~= bytes@);
    out
}

/// The value of a hexadecimal digit, either case.
pub open spec fn hex_value(c: char) -> Option<nat> {
    if '0' <= c && c <= '9' {
        Some((c as nat - 48) as nat)
    } else if 'A' <= c && c <= 'F' {
        Some((c as nat - 55) as nat)
    } else if 'a' <= c && c <= 'f' {
        Some((c as nat - 87) as nat)
    } else {
        None
    }
}

/// Percent-decoding into bytes: `%XX` is the byte `XX`, any other ASCII character is itself.
/// `None` for a malformed escape or a non-ASCII character.
pub open spec fn pct_decode(cs: Seq<char>) -> Option<Seq<u8>>
    decreases cs.len(),
{
    if cs.len() == 0 {
        Some(Seq::empty())
    } else if cs[0] == '%' {
        if cs.len() >= 3 && hex_value(cs[1]) is Some && hex_value(cs[2]) is Some {
            match pct_decode(cs.skip(3)) {
                Some(rest) => Some(
                    seq![(hex_value(cs[1])->0 * 16 + hex_value(cs[2])->0) as u8] + rest,
                ),
                None => None,
            }
        } else {
            None
        }
    } else if (cs[0] as u32) < 128 {
        match pct_decode(cs.drop_first()) {
            Some(rest) => Some(seq![cs[0] as u8] + rest),
            None => None,
        }
    } else {
        None
    }
}

proof fn lemma_seg_byte_decodes(b: u8, rest: Seq<char>)
    ensures
        pct_decode(seg_byte(b) + rest) == match pct_decode(rest) {
            Some(r) => Some(seq![b] + r),
            None => None,
        },
{
    let cs = seg_byte(b) + rest;
    if unreserved(b) {
        assert(cs[0] == b as char);
        assert((b as char) as u32 == b as u32);
        assert(cs.drop_first() =~= rest);
        assert(((b as char) as u8) == b);
    } else {
        let hi = (b / 16) as nat;
        let lo = (b % 16) as nat;
        assert(cs[0] == '%');
        assert(cs[1] == hex_digit(hi));
        assert(cs[2] == hex_digit(lo));
        assert(hex_value(hex_digit(hi)) == Some(hi));
        assert(hex_value(hex_digit(lo)) == Some(lo));
        assert(cs.skip(3) =~= rest);
        assert((hi * 16 + lo) as u8 == b);
    }
}

/// Percent-decoding gives back the UTF-8 bytes that [`seg`] encoded: the encoding loses nothing.
pub proof fn law_seg_roundtrip(s: Seq<char>)
    ensures
        pct_decode(spec_seg(s)) == Some(encode_utf8(s)),
{
    lemma_seg_bytes_decode(encode_utf8(s));
}

proof fn lemma_seg_bytes_decode(bs: Seq<u8>)
    ensures
        pct_decode(seg_bytes(bs)) == Some(bs),
    decreases bs.len(),
{
    if bs.len() == 0 {
    } else {
        lemma_seg_bytes_decode(bs.drop_first());
        lemma_seg_byte_decodes(bs[0], seg_bytes(bs.drop_first()));
        assert(seq![bs[0]] + bs.drop_first() =~= bs);
    }
}


/// The `k=v` parts of a query string, in order, from the pairs that have a value.
pub open spec fn query_parts(pairs: Seq<(&str, Option<String>)>) -> Seq<Seq<char>>
    decreases pairs.len(),
{
    if pairs.len() == 0 {
        Seq::empty()
    } else {
        let init = query_parts(pairs.drop_last());
        match pairs.last().1 {
            Some(v) => init.push(pairs.last().0@ + "="@ + spec_seg(v@)),
            None => init,
        }
    }
}

/// `?a=1&b=2` from the pairs that have a value; the empty string when none has one.
pub open spec fn spec_query(pairs: Seq<(&str, Option<String>)>) -> Seq<char> {
    let parts = query_parts(pairs);
    if parts.len() == 0 {
        Seq::empty()
    } else {
        "?"@ + join(parts, "&"@)
    }
}

/// Builds `?a=1&b=2` from the pairs that have a value.
pub fn query(pairs: &[(&str, Option<String>)]) -> (r: String)
    ensures
        r@ == spec_query(pairs@),
{
    let mut out = String::new();
    let mut n: usize = 0;
    let mut i: usize = 0;
    while i < pairs.len()
        invariant
            i <= pairs@.len(),
            n <= i,
            n == query_parts(pairs@.take(i as int)).len(),
            out@ == spec_query(pairs@.take(i as int)),
        decreases pairs.len() - i,
    {
        let ghost before = pairs@.take(i as int);
        assert(pairs@.take(i + 1).drop_last() =~= before);
        assert(pairs@.take(i + 1).last() == pairs@[i as int]);
        match &pairs[i].1 {
            Some(v) => {
                let ghost parts = query_parts(before);
                let ghost o0 = out@;
                let enc = seg(v.as_str());
                let k: &str = pairs[i].0;
                assert(k@ == pairs@[i as int].0@);
                if n == 0 {
                    push_str(&mut out, "?");
                } else {
                    push_str(&mut out, "&");
                }
                push_str(&mut out, k);
                push_str(&mut out, "=");
                push_str(&mut out, enc.as_str());
                let ghost x = pairs@[i as int].0@ + "="@ + spec_seg(v@);
                assert(parts.push(x).drop_last() =~= parts);
                if n == 0 {
                    assert(o0 == Seq::<char>::empty());
                    assert(out@ =~= "?"@ + x);
                } else {
                    assert(o0 == "?"@ + join(parts, "&"@));
                    assert(out@ =~= "?"@ + join(parts, "&"@) + "&"@ + x);
                }
                n = n + 1;
            },
            None => {},
        }
        i = i + 1;
    }
    assert(pairs@.take(pairs.len() as int) =~= pairs@);
    out
}

/// `HTTP <status>`, then `: <body>` when there is a body.
pub open spec fn status_detail(status: u16, body: Seq<char>) -> Seq<char> {
    "HTTP "@ + decimal(status as nat) + if body.len() > 0 {
        ": "@ + body
    } else {
        Seq::empty()
    }
}

/// A rate-limit answer: 429, or 403 with "rate limit" in the body, in any ASCII case.
pub open spec fn is_rate_limit(status: u16, body: Seq<char>) -> bool {
    status == 429 || (status == 403 && contains_seq(ascii_lower_seq(body), "rate limit"@))
}

/// The error for a non-2xx answer with status `status`, body `body`, and `message` the
/// `message` field of the body read as JSON (empty when there is none).
pub open spec fn spec_status_error(status: u16, body: Seq<char>, message: Seq<char>) -> ErrorV {
    let e = if status == 401 {
        with_fix(
            err(ErrorCode::AuthRequired, "The GitHub token was rejected."@),
            "Replace it: gh-issue-import accounts add <name> --token <token> --force"@,
        )
    } else if status == 403 && is_rate_limit(status, body) {
        with_fix(
            err(ErrorCode::RateLimited, "GitHub API rate limit exceeded."@),
            "Wait for the rate limit window to reset before retrying."@,
        )
    } else if status == 403 {
        with_fix(
            err(
                ErrorCode::AuthRequired,
                "The GitHub token is not permitted to perform this action."@,
            ),
            "Ensure your token has 'repo' scope permissions."@,
        )
    } else if status == 404 {
        err(ErrorCode::NotFound, "The GitHub repository or resource was not found."@)
    } else if status == 429 {
        with_fix(
            err(ErrorCode::RateLimited, "GitHub API rate limit exceeded."@),
            "Wait for the rate limit window to reset before retrying."@,
        )
    } else if status == 422 {
        err(
            ErrorCode::InvalidInput,
            if message.len() > 0 {
                "GitHub rejected the issue request: "@ + message
            } else {
                "The GitHub API refused the request payload."@
            },
        )
    } else if status >= 500 {
        with_fix(
            err(ErrorCode::Network, "GitHub returned a server error."@),
            "Retry; if it persists check https://www.githubstatus.com"@,
        )
    } else {
        err(ErrorCode::Error, "The GitHub API request failed."@)
    };
    with_detail(e, status_detail(status, body))
}

/// The error for a non-2xx answer, given the `message` field that the body holds when read
/// as JSON.
pub fn classify_status(status: u16, body: &str, message: Option<&str>) -> (r: Error)
    ensures
        r@ == spec_status_error(
            status,
            body@,
            match message {
                Some(m) => m@,
                None => Seq::empty(),
            },
        ),
{
    let mut detail = concat("HTTP ", decimal_string(status as u64).as_str());
    if !body.is_empty() {
        push_str(&mut detail, ": ");
        push_str(&mut detail, body);
    }
    let lower = ascii_lowercase(body);
    let is_rate = status == 429 || (status == 403 && contains_str(lower.as_str(), "rate limit"));
    let e = if status == 401 {
        Error::new(ErrorCode::AuthRequired, owned("The GitHub token was rejected.")).fix(
            owned("Replace it: gh-issue-import accounts add <name> --token <token> --force"),
        )
    } else if status == 403 && is_rate {
        Error::new(ErrorCode::RateLimited, owned("GitHub API rate limit exceeded.")).fix(
            owned("Wait for the rate limit window to reset before retrying."),
        )
    } else if status == 403 {
        Error::new(
            ErrorCode::AuthRequired,
            owned("The GitHub token is not permitted to perform this action."),
        ).fix(owned("Ensure your token has 'repo' scope permissions."))
    } else if status == 404 {
        Error::new(ErrorCode::NotFound, owned("The GitHub repository or resource was not found."))
    } else if status == 429 {
        Error::new(ErrorCode::RateLimited, owned("GitHub API rate limit exceeded.")).fix(
            owned("Wait for the rate limit window to reset before retrying."),
        )
    } else if status == 422 {
        let msg = match message {
            Some(m) if !m.is_empty() => concat("GitHub rejected the issue request: ", m),
            _ => owned("The GitHub API refused the request payload."),
        };
        Error::new(ErrorCode::InvalidInput, msg)
    } else if status >= 500 {
        Error::new(ErrorCode::Network, owned("GitHub returned a server error.")).fix(
            owned("Retry; if it persists check https://www.githubstatus.com"),
        )
    } else {
        Error::new(ErrorCode::Error, owned("The GitHub API request failed."))
    };
    assert(detail@ =~= status_detail(status, body@));
    e.detail(detail)
}

/// The error for a non-2xx answer with status `status` and body text `body`.
pub fn status_error(status: u16, body: &str) -> (r: Error)
    ensures
        r@ == spec_status_error(status, body@, or_empty(json_str_field_of(body@, "message"@))),
{
    let message = json_str_field(body, "message");
    match &message {
        Some(m) => classify_status(status, body, Some(m.as_str())),
        None => classify_status(status, body, None),
    }
}

/// The class of each HTTP failure: 401 and a plain 403 need a token, a 403 or 429 about rate
/// limits is a rate limit, 404 is not found, 422 is invalid input, 5xx is a network failure,
/// and anything else is unclassified.
pub proof fn law_status_classes(status: u16, body: Seq<char>, message: Seq<char>)
    ensures
        ({
            let c = spec_status_error(status, body, message).code;
            &&& status == 401 ==> c == ErrorCode::AuthRequired
            &&& status == 403 ==> c == (if is_rate_limit(status, body) {
                ErrorCode::RateLimited
            } else {
                ErrorCode::AuthRequired
            })
            &&& status == 404 ==> c == ErrorCode::NotFound
            &&& status == 429 ==> c == ErrorCode::RateLimited
            &&& status == 422 ==> c == ErrorCode::InvalidInput
            &&& status >= 500 ==> c == ErrorCode::Network
            &&& (status != 401 && status != 403 && status != 404 && status != 429 && status != 422
                && status < 500) ==> c == ErrorCode::Error
        }),
        spec_status_error(status, body, message).detail == Some(status_detail(status, body)),
{
}

/// The error for a request that never got an answer; `detail` is the transport's own text.
pub open spec fn spec_transport_error(timed_out: bool, detail: Seq<char>) -> ErrorV {
    if timed_out {
        with_fix(err(ErrorCode::Network, "The request timed out."@), "Retry once, then stop."@)
    } else {
        with_fix(
            with_detail(err(ErrorCode::Network, "Could not reach the GitHub API."@), detail),
            "Retry once, then stop."@,
        )
    }
}

/// The error for a request that failed in transport: a time-out, or another failure whose
/// text is `detail`.
pub fn transport_error(timed_out: bool, detail: String) -> (r: Error)
    ensures
        r@ == spec_transport_error(timed_out, detail@),
{
    if timed_out {
        Error::new(ErrorCode::Network, owned("The request timed out.")).fix(
            owned("Retry once, then stop."),
        )
    } else {
        Error::new(ErrorCode::Network, owned("Could not reach the GitHub API.")).detail(
            detail,
        ).fix(owned("Retry once, then stop."))
    }
}

/// `u8::is_ascii_whitespace`.
pub open spec fn ascii_ws(b: u8) -> bool {
    b == 32 || b == 9 || b == 10 || b == 12 || b == 13
}

/// The outcome of reading an answer with status `status` and body `bytes`, where `parsed` is
/// what the body gives when read as JSON.
pub open spec fn spec_read(status: u16, bytes: Seq<u8>, parsed: Option<JsonV>) -> Result<
    JsonV,
    ErrorV,
> {
    let text = lossy_utf8_of(bytes);
    if !(200 <= status && status < 300) {
        Err(
            spec_status_error(
                status,
                trim(text),
                or_empty(json_str_field_of(trim(text), "message"@)),
            ),
        )
    } else if forall|i: int| 0 <= i < bytes.len() ==> ascii_ws(#[trigger] bytes[i]) {
        Ok(JsonV::Object(Seq::empty()))
    } else {
        match parsed {
            Some(v) => Ok(v),
            None => Ok(JsonV::Str(text)),
        }
    }
}

/// Turns an answer into a JSON value or an error: a failure status becomes its error, an
/// empty body an empty object, and a body that is not JSON (`parsed` is `None`) its text.
pub fn read_response(status: u16, bytes: &[u8], parsed: Option<Json>) -> (r: Result<Json, Error>)
    ensures
        match r {
            Ok(v) => spec_read(status, bytes@, match parsed { Some(p) => Some(p@), None => None }) == Ok::<JsonV, ErrorV>(v@),
            Err(e) => spec_read(status, bytes@, match parsed { Some(p) => Some(p@), None => None }) == Err::<JsonV, ErrorV>(e@),
        },
{
    let text = lossy_utf8(bytes);
    if !(200 <= status && status < 300) {
        let body = trim_str(text.as_str());
        return Err(status_error(status, body.as_str()));
    }
    let mut i: usize = 0;
    while i < bytes.len()
        invariant
            i <= bytes.len(),
            200 <= status < 300,
            text@ == lossy_utf8_of(bytes@),
            forall|k: int| 0 <= k < i ==> ascii_ws(#[trigger] bytes@[k]),
        decreases bytes.len() - i,
    {
        let b = bytes[i];
        if !(b == 32 || b == 9 || b == 10 || b == 12 || b == 13) {
            assert(!ascii_ws(bytes@[i as int]));
            return match parsed {
                Some(v) => Ok(v),
                None => Ok(Json::Str(text)),
            };
        }
        i = i + 1;
    }
    Ok(Json::Object(Vec::new()))
}

/// The API base: the configured address (`GH_ISSUE_IMPORT_API_URL` when set, else
/// `GITHUB_API_URL`) unless it is blank, else the default; always ending in `/`.
pub open spec fn spec_api_base(configured: Option<Seq<char>>) -> Seq<char> {
    let base = match configured {
        Some(c) => if is_blank(c) {
            "https://api.github.com/"@
        } else {
            c
        },
        None => "https://api.github.com/"@,
    };
    if ends_with(base, "/"@) {
        base
    } else {
        base.push('/')
    }
}

/// The API base always ends in `/`, so that paths are appended to it.
pub proof fn law_api_base_ends_with_slash(configured: Option<Seq<char>>)
    ensures
        ends_with(spec_api_base(configured), "/"@),
{
    reveal_strlit("/");
    let base = match configured {
        Some(c) => if is_blank(c) {
            "https://api.github.com/"@
        } else {
            c
        },
        None => "https://api.github.com/"@,
    };
    if !ends_with(base, "/"@) {
        let b = base.push('/');
        assert(b.subrange(b.len() - 1, b.len() as int) =~= "/"@);
    }
}

/// A query from pairs of which none has a value is empty.
pub proof fn law_query_without_values(pairs: Seq<(&str, Option<String>)>)
    requires
        forall|i: int| 0 <= i < pairs.len() ==> (#[trigger] pairs[i]).1 is None,
    ensures
        spec_query(pairs) == Seq::<char>::empty(),
        query_parts(pairs).len() == 0,
    decreases pairs.len(),
{
    if pairs.len() > 0 {
        let init = pairs.drop_last();
        assert forall|i: int| 0 <= i < init.len() implies (#[trigger] init[i]).1 is None by {
            assert(init[i] == pairs[i]);
        }
        law_query_without_values(init);
        assert(pairs.last() == pairs[pairs.len() - 1]);
    }
}

/// The API base from the configured address, if any.
pub fn api_base(configured: Option<&str>) -> (r: String)
    ensures
        r@ == spec_api_base(match configured {
            Some(c) => Some(c@),
            None => None,
        }),
{
    let mut base = match configured {
        Some(c) => if is_blank_str(c) {
            owned("https://api.github.com/")
        } else {
            owned(c)
        },
        None => owned("https://api.github.com/"),
    };
    if !ends_with_str(base.as_str(), "/") {
        push_char(&mut base, '/');
    }
    base
}

/// The `Authorization` header value for a token.
pub fn auth_header(token: &str) -> (r: String)
    ensures
        r@ == "Bearer "@ + token@,
{
    concat("Bearer ", token)
}

/// The URL of `path` under `base`, with the leading `/` of `path` dropped.
pub fn request_url(base: &str, path: &str) -> (r: String)
    ensures
        r@ == base@ + strip_leading(path@, '/'),
{
    let v = chars_of(path);
    let i = skip_leading(&v, 0, v.len(), '/');
    assert(v@.subrange(0, v@.len() as int) == path@);
    let rest = string_of(&v, i, v.len());
    concat(base, rest.as_str())
}

/// The path of the authenticated user.
pub fn user_path() -> (r: String)
    ensures
        r@ == "user"@,
{
    owned("user")
}

/// The path of a repository: `repos/<owner>/<repo>`.
pub fn repo_path(owner: &str, repo: &str) -> (r: String)
    ensures
        r@ == "repos/"@ + owner@ + "/"@ + repo@,
{
    let mut r = concat3("repos/", owner, "/");
    push_str(&mut r, repo);
    r
}

/// The issues of a repository: `repos/<owner>/<repo>/issues`.
pub fn issues_path(owner: &str, repo: &str) -> (r: String)
    ensures
        r@ == "repos/"@ + owner@ + "/"@ + repo@ + "/issues"@,
{
    let mut r = repo_path(owner, repo);
    push_str(&mut r, "/issues");
    r
}

/// The listing of a repository's issues with a query built from `params`.
pub fn list_issues_path(owner: &str, repo: &str, params: &[(&str, Option<String>)]) -> (r: String)
    ensures
        r@ == "repos/"@ + owner@ + "/"@ + repo@ + "/issues"@ + spec_query(params@),
{
    let mut r = issues_path(owner, repo);
    let q = query(params);
    push_str(&mut r, q.as_str());
    r
}

/// All milestones of a repository, up to a hundred.
pub fn milestones_path(owner: &str, repo: &str) -> (r: String)
    ensures
        r@ == "repos/"@ + owner@ + "/"@ + repo@ + "/milestones?state=all&per_page=100"@,
{
    let mut r = repo_path(owner, repo);
    push_str(&mut r, "/milestones?state=all&per_page=100");
    r
}

/// The labels of a repository, up to a hundred.
pub fn labels_path(owner: &str, repo: &str) -> (r: String)
    ensures
        r@ == "repos/"@ + owner@ + "/"@ + repo@ + "/labels?per_page=100"@,
{
    let mut r = repo_path(owner, repo);
    push_str(&mut r, "/labels?per_page=100");
    r
}

/// The issue search for query `q`.
pub fn search_path(q: &str) -> (r: String)
    ensures
        r@ == "search/issues?q="@ + spec_seg(q@),
{
    let e = seg(q);
    concat("search/issues?q=", e.as_str())
}


/// An unreserved character: `A-Z a-z 0-9 - _ . ~`.
pub open spec fn unreserved_char(c: char) -> bool {
    ||| ('A' <= c && c <= 'Z')
    ||| ('a' <= c && c <= 'z')
    ||| ('0' <= c && c <= '9')
    ||| c == '-'
    ||| c == '_'
    ||| c == '.'
    ||| c == '~'
}

/// An upper-case hexadecimal digit.
pub open spec fn upper_hex(c: char) -> bool {
    ('0' <= c && c <= '9') || ('A' <= c && c <= 'F')
}

/// Text made only of unreserved characters and `%XX` escapes with upper-case digits.
pub open spec fn well_escaped(cs: Seq<char>) -> bool
    decreases cs.len(),
{
    if cs.len() == 0 {
        true
    } else if cs[0] == '%' {
        cs.len() >= 3 && upper_hex(cs[1]) && upper_hex(cs[2]) && well_escaped(cs.skip(3))
    } else {
        unreserved_char(cs[0]) && well_escaped(cs.drop_first())
    }
}

/// The length of the encoding of a byte string: one character per unreserved byte, three
/// for any other.
pub open spec fn seg_len(bs: Seq<u8>) -> nat
    decreases bs.len(),
{
    if bs.len() == 0 {
        0
    } else {
        (if unreserved(bs[0]) {
            1nat
        } else {
            3nat
        }) + seg_len(bs.drop_first())
    }
}

proof fn lemma_seg_bytes_shape(bs: Seq<u8>)
    ensures
        well_escaped(seg_bytes(bs)),
        seg_bytes(bs).len() == seg_len(bs),
    decreases bs.len(),
{
    if bs.len() > 0 {
        let b = bs[0];
        let rest = seg_bytes(bs.drop_first());
        lemma_seg_bytes_shape(bs.drop_first());
        let cs = seg_byte(b) + rest;
        if unreserved(b) {
            assert(cs[0] == b as char);
            assert((b as char) as u32 == b as u32);
            assert(cs.drop_first() =~= rest);
        } else {
            let hi = (b / 16) as nat;
            let lo = (b % 16) as nat;
            assert(cs[0] == '%');
            assert(cs[1] == hex_digit(hi));
            assert(cs[2] == hex_digit(lo));
            assert(upper_hex(hex_digit(hi)));
            assert(upper_hex(hex_digit(lo)));
            assert(cs.skip(3) =~= rest);
        }
    }
}

proof fn lemma_seg_bytes_concat(x: Seq<u8>, y: Seq<u8>)
    ensures
        seg_bytes(x + y) == seg_bytes(x) + seg_bytes(y),
    decreases x.len(),
{
    if x.len() == 0 {
        assert(x + y =~= y);
        assert(seg_bytes(x) + seg_bytes(y) =~= seg_bytes(y));
    } else {
        lemma_seg_bytes_concat(x.drop_first(), y);
        assert((x + y).drop_first() =~= x.drop_first() + y);
        assert((x + y)[0] == x[0]);
        assert(seg_bytes(x + y) =~= seg_bytes(x) + seg_bytes(y));
    }
}

proof fn lemma_encode_utf8_concat(a: Seq<char>, b: Seq<char>)
    ensures
        encode_utf8(a + b) == encode_utf8(a) + encode_utf8(b),
    decreases a.len(),
{
    if a.len() == 0 {
        assert(a + b =~= b);
        assert(encode_utf8(a) + encode_utf8(b) =~= encode_utf8(b));
    } else {
        lemma_encode_utf8_concat(a.drop_first(), b);
        assert((a + b).drop_first() =~= a.drop_first() + b);
        assert((a + b)[0] == a[0]);
        assert(encode_utf8(a + b) =~= encode_utf8(a) + encode_utf8(b));
    }
}

/// The encoding of a text is made only of unreserved characters and well-formed `%XX`
/// escapes; it has one character per unreserved byte of the text's UTF-8 and three per other
/// byte; and text made of unreserved characters is its own encoding.
pub proof fn law_seg_shape(s: Seq<char>)
    ensures
        well_escaped(spec_seg(s)),
        spec_seg(s).len() == seg_len(encode_utf8(s)),
        (forall|i: int| 0 <= i < s.len() ==> unreserved_char(#[trigger] s[i])) ==> spec_seg(s)
            == s,
    decreases s.len(),
{
    lemma_seg_bytes_shape(encode_utf8(s));
    if (forall|i: int| 0 <= i < s.len() ==> unreserved_char(#[trigger] s[i])) && s.len() > 0 {
        let c = s[0];
        let rest = s.drop_first();
        assert(forall|i: int| 0 <= i < rest.len() ==> unreserved_char(#[trigger] rest[i])) by {
            assert forall|i: int| 0 <= i < rest.len() implies unreserved_char(#[trigger] rest[i]) by {
                assert(rest[i] == s[i + 1]);
            }
        }
        law_seg_shape(rest);
        assert(unreserved_char(c));
        let one = seq![c];
        assert(vstd::utf8::is_ascii_chars(one));
        vstd::utf8::is_ascii_chars_encode_utf8(one);
        assert(s =~= one + rest);
        lemma_encode_utf8_concat(one, rest);
        let e1 = encode_utf8(one);
        assert(e1.len() == 1);
        assert(e1[0] == c as u8);
        assert(unreserved(c as u8));
        assert((c as u8) as char == c);
        assert(seg_bytes(e1) =~= seq![c]) by {
            assert(e1.drop_first() =~= Seq::<u8>::empty());
            assert(seg_bytes(e1.drop_first()) == Seq::<char>::empty());
            assert(seg_byte(e1[0]) == seq![(c as u8) as char]);
            assert(seg_bytes(e1) == seg_byte(e1[0]) + seg_bytes(e1.drop_first()));
        }
        lemma_seg_bytes_concat(e1, encode_utf8(rest));
    }
}

/// Encoding a concatenation encodes the parts one after the other.
pub proof fn law_seg_concat(a: Seq<char>, b: Seq<char>)
    ensures
        spec_seg(a + b) == spec_seg(a) + spec_seg(b),
{
    lemma_encode_utf8_concat(a, b);
    lemma_seg_bytes_concat(encode_utf8(a), encode_utf8(b));
}

} // verus!
