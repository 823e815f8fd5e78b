use gh_issue_import::client::{
    api_base, auth_header, classify_status, issues_path, labels_path, list_issues_path,
    milestones_path, query, read_response, repo_path, request_url, search_path, seg,
    status_error, transport_error, user_path,
};
use gh_issue_import::error::ErrorCode;
use gh_issue_import::json::Json;

#[test]
fn seg_escapes_special() {
    assert_eq!(seg("repo:octo/cat is:open"), "repo%3Aocto%2Fcat%20is%3Aopen");
}

#[test]
fn status_maps_properly() {
    assert_eq!(status_error(401, "").code, ErrorCode::AuthRequired);
    assert_eq!(status_error(404, "").code, ErrorCode::NotFound);
    assert_eq!(status_error(422, "").code, ErrorCode::InvalidInput);
    assert_eq!(status_error(429, "").code, ErrorCode::RateLimited);
    assert_eq!(
        status_error(403, r#"{"message":"API rate limit exceeded"}"#).code,
        ErrorCode::RateLimited
    );
    assert_eq!(status_error(500, "").code, ErrorCode::Network);
}

#[test]
fn http_errors_map_to_exit_codes() {
    let cases: Vec<(u16, &str, ErrorCode, i32, &str)> = vec![
        (401, r#"{"message":"Bad credentials"}"#, ErrorCode::AuthRequired, 3, "auth_required"),
        (403, r#"{"message":"API rate limit exceeded"}"#, ErrorCode::RateLimited, 5, "rate_limited"),
        (404, r#"{"message":"Not Found"}"#, ErrorCode::NotFound, 4, "not_found"),
        (422, r#"{"message":"Validation Failed"}"#, ErrorCode::InvalidInput, 6, "invalid_input"),
        (500, r#"{"message":"Server Error"}"#, ErrorCode::Network, 2, "network"),
    ];
    for (status, body, code, exit, name) in cases {
        let e = status_error(status, body);
        assert_eq!(e.code, code);
        assert_eq!(e.code.exit_code(), exit);
        assert_eq!(e.code.as_str(), name);
        let env = e.envelope();
        assert_eq!(env.get("code").and_then(|c| c.as_str()).map(|s| s.as_str()), Some(name));
    }
}

#[test]
fn seg_keeps_unreserved_and_encodes_utf8() {
    assert_eq!(seg("Az09-_.~"), "Az09-_.~");
    assert_eq!(seg(""), "");
    assert_eq!(seg("é"), "%C3%A9");
    assert_eq!(seg("a&b=c"), "a%26b%3Dc");
    assert_eq!(seg("a b"), "a%20b");
    assert_eq!(format!("{}{}", seg("a/"), seg("é b")), seg("a/é b"));
    assert_eq!(seg("é").len(), 6);
}

#[test]
fn query_skips_pairs_without_value() {
    assert_eq!(query(&[]), "");
    assert_eq!(query(&[("state", None)]), "");
    assert_eq!(
        query(&[("state", Some("all".to_string())), ("labels", None), ("q", Some("a b".to_string()))]),
        "?state=all&q=a%20b"
    );
}

#[test]
fn forbidden_without_rate_limit_needs_a_token() {
    let e = status_error(403, r#"{"message":"Resource not accessible"}"#);
    assert_eq!(e.code, ErrorCode::AuthRequired);
    assert_eq!(e.remediation.as_deref(), Some("Ensure your token has 'repo' scope permissions."));
    let e = status_error(403, "RATE LIMIT hit");
    assert_eq!(e.code, ErrorCode::RateLimited);
}

#[test]
fn validation_failure_carries_github_message() {
    let e = status_error(422, r#"{"message":"Validation Failed"}"#);
    assert_eq!(e.message, "GitHub rejected the issue request: Validation Failed");
    assert_eq!(e.detail.as_deref(), Some(r#"HTTP 422: {"message":"Validation Failed"}"#));
    let e = status_error(422, "not json");
    assert_eq!(e.message, "The GitHub API refused the request payload.");
    let e = classify_status(418, "", None);
    assert_eq!(e.code, ErrorCode::Error);
    assert_eq!(e.detail.as_deref(), Some("HTTP 418"));
}

#[test]
fn transport_failures_are_network_errors() {
    let e = transport_error(true, "ignored".to_string());
    assert_eq!(e.code, ErrorCode::Network);
    assert_eq!(e.message, "The request timed out.");
    assert_eq!(e.detail, None);
    let e = transport_error(false, "connection refused".to_string());
    assert_eq!(e.message, "Could not reach the GitHub API.");
    assert_eq!(e.detail.as_deref(), Some("connection refused"));
    assert_eq!(e.remediation.as_deref(), Some("Retry once, then stop."));
}

#[test]
fn responses_become_values_or_errors() {
    match read_response(204, b"", None) {
        Ok(Json::Object(f)) => assert!(f.is_empty()),
        _ => panic!("an empty body is an empty object"),
    }
    match read_response(200, b"plain text", None) {
        Ok(Json::Str(s)) => assert_eq!(s, "plain text"),
        _ => panic!("a body that is not JSON is its text"),
    }
    match read_response(200, b"{}", Some(Json::UInt(7))) {
        Ok(Json::UInt(n)) => assert_eq!(n, 7),
        _ => panic!("a JSON body is its value"),
    }
    match read_response(404, b"  {\"message\":\"Not Found\"}\n", None) {
        Err(e) => {
            assert_eq!(e.code, ErrorCode::NotFound);
            assert_eq!(e.detail.as_deref(), Some("HTTP 404: {\"message\":\"Not Found\"}"));
        }
        Ok(_) => panic!("a failure status is an error"),
    }
    match read_response(200, "héllo".as_bytes(), None) {
        Ok(Json::Str(s)) => assert_eq!(s, "héllo"),
        _ => panic!("valid UTF-8 is decoded as it is"),
    }
    match read_response(500, &[0xff, b'x'], None) {
        Err(e) => assert_eq!(e.detail.as_deref(), Some("HTTP 500: \u{FFFD}x")),
        Ok(_) => panic!("a failure status is an error"),
    }
}

#[test]
fn api_base_and_paths() {
    assert_eq!(api_base(None), "https://api.github.com/");
    assert_eq!(api_base(Some("  ")), "https://api.github.com/");
    assert_eq!(api_base(Some("http://127.0.0.1:9")), "http://127.0.0.1:9/");
    assert_eq!(api_base(Some("http://h/api/")), "http://h/api/");
    assert_eq!(auth_header("gh_test_token"), "Bearer gh_test_token");
    assert_eq!(request_url("http://h/", "/user"), "http://h/user");
    assert_eq!(request_url("http://h/", "repos/o/r"), "http://h/repos/o/r");
    assert_eq!(user_path(), "user");
    assert_eq!(repo_path("octo", "cat"), "repos/octo/cat");
    assert_eq!(issues_path("octo", "cat"), "repos/octo/cat/issues");
    assert_eq!(
        list_issues_path("octo", "cat", &[("state", Some("all".to_string())), ("page", None)]),
        "repos/octo/cat/issues?state=all"
    );
    assert_eq!(milestones_path("o", "r"), "repos/o/r/milestones?state=all&per_page=100");
    assert_eq!(labels_path("o", "r"), "repos/o/r/labels?per_page=100");
    assert_eq!(search_path("repo:o/r is:issue"), "search/issues?q=repo%3Ao%2Fr%20is%3Aissue");
}
