use gh_issue_import::clock::timestamp;

#[test]
fn timestamps_are_utc_calendar_dates() {
    assert_eq!(timestamp(0), "1970-01-01T00:00:00Z");
    assert_eq!(timestamp(951782400), "2000-02-29T00:00:00Z");
    assert_eq!(timestamp(1704067199), "2023-12-31T23:59:59Z");
    assert_eq!(timestamp(1709210096), "2024-02-29T12:34:56Z");
    assert_eq!(timestamp(4102444800), "2100-01-01T00:00:00Z");
}
