use gh_issue_import::error::{Error, ErrorCode};
use gh_issue_import::json::{jstr_of, str_array_of, Json};
use gh_issue_import::text::{
    ascii_lowercase, concat3, contains_str, decimal_string, ends_with_str, eq_ignore_ascii_case,
    is_blank_str, starts_with_str, str_less, trim_str,
};

fn text<'a>(j: &'a Json, key: &str) -> Option<&'a str> {
    j.get(key).and_then(|v| v.as_str()).map(|v| v.as_str())
}

#[test]
fn set_field_then_get() {
    let mut j = Json::Object(vec![("a".to_string(), Json::UInt(1)), ("b".to_string(), Json::Null)]);
    j.set_field("a", Json::UInt(2));
    j.set_field("c", jstr_of("x"));
    assert_eq!(j.u64_field("a"), Some(2));
    assert_eq!(text(&j, "c"), Some("x"));
    assert!(matches!(j.get("b"), Some(Json::Null)));
    match &j {
        Json::Object(f) => {
            assert_eq!(f.len(), 3);
            assert_eq!(f[0].0, "a");
            assert_eq!(f[2].0, "c");
        }
        _ => panic!("still an object"),
    }
    let mut n = Json::UInt(3);
    n.set_field("a", Json::Null);
    assert_eq!(n.as_u64(), Some(3));
}

#[test]
fn duplicate_is_equal_in_every_field() {
    let j = Json::Object(vec![
        ("list".to_string(), str_array_of(&vec!["a".to_string(), "b".to_string()])),
        ("n".to_string(), Json::Int(-4)),
        ("f".to_string(), Json::Float("1.5".to_string())),
        ("t".to_string(), Json::Bool(true)),
    ]);
    let d = j.duplicate();
    let list = d.get("list").unwrap().as_array().unwrap();
    assert_eq!(list.len(), 2);
    assert_eq!(list[1].as_str().map(|s| s.as_str()), Some("b"));
    assert!(matches!(d.get("n"), Some(Json::Int(-4))));
    assert!(matches!(d.get("f"), Some(Json::Float(s)) if s == "1.5"));
    assert_eq!(d.str_field("t"), None);
}

#[test]
fn error_envelope_fields() {
    let e = Error::new(ErrorCode::NotFound, "gone".to_string()).detail("d".to_string()).fix("f".to_string());
    let env = e.envelope();
    assert_eq!(text(&env, "error"), Some("gone"));
    assert_eq!(text(&env, "code"), Some("not_found"));
    assert_eq!(text(&env, "detail"), Some("d"));
    assert_eq!(text(&env, "remediation"), Some("f"));
    let plain = Error::other("x".to_string()).envelope();
    assert!(plain.get("detail").is_none());
    assert_eq!(Error::invalid("y".to_string()).code.exit_code(), 6);
    assert_eq!(ErrorCode::Error.exit_code(), 1);
}

#[test]
fn text_helpers() {
    assert_eq!(trim_str("  a b \t\n"), "a b");
    assert!(is_blank_str(" \n\t"));
    assert!(!is_blank_str(" x "));
    assert_eq!(ascii_lowercase("AbÉ"), "abÉ");
    assert!(eq_ignore_ascii_case("WoRk", "work"));
    assert!(!eq_ignore_ascii_case("work", "works"));
    assert!(contains_str("abc rate limit", "rate limit"));
    assert!(!contains_str("rate", "rate limit"));
    assert!(starts_with_str("abc", "ab"));
    assert!(ends_with_str("abc", "bc"));
    assert_eq!(decimal_string(0), "0");
    assert_eq!(decimal_string(18446744073709551615), "18446744073709551615");
    assert!(str_less("alpha", "beta"));
    assert!(str_less("ab", "abc"));
    assert!(!str_less("b", "b"));
    assert_eq!(concat3("a", "b", "c"), "abc");
}
