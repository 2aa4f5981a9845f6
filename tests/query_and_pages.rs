use fd_jira::credentials::parse_creds;
use fd_jira::page::{decode_page, Collector};
use fd_jira::query::{build_changed_since_query, filter_expression, issue_url, search_url};
use fd_jira::time::Timestamp;

#[test]
fn query_is_encoded_in_utc_minutes() {
    // 2019-09-01T00:00:30-05:00 is 05:00:30 UTC.
    let since = Timestamp { utc_seconds: 1567314030 };
    let q = build_changed_since_query("PROJ", since).unwrap();
    assert_eq!(
        q,
        "project%3DPROJ%20AND%20updatedDate%20%3E%3D%20%222019-09-01%2005%3A00%22"
    );
}

#[test]
fn same_minute_same_query() {
    let a = build_changed_since_query("PROJ", Timestamp { utc_seconds: 1567314000 }).unwrap();
    let b = build_changed_since_query("PROJ", Timestamp { utc_seconds: 1567314059 }).unwrap();
    let c = build_changed_since_query("PROJ", Timestamp { utc_seconds: 1567314060 }).unwrap();
    assert_eq!(a, b);
    assert_ne!(a, c);
    let before_epoch = build_changed_since_query("P", Timestamp { utc_seconds: -1 }).unwrap();
    assert_eq!(before_epoch, "project%3DP%20AND%20updatedDate%20%3E%3D%20%221969-12-31%2023%3A59%22");
}

#[test]
fn query_encodes_utf8_bytes() {
    let q = build_changed_since_query("É~x", Timestamp { utc_seconds: 0 }).unwrap();
    assert!(q.starts_with("project%3D%C3%89~x%20AND"));
}

#[test]
fn query_far_past() {
    let q = build_changed_since_query("P", Timestamp { utc_seconds: 0 }).unwrap();
    assert_eq!(q, "project%3DP%20AND%20updatedDate%20%3E%3D%20%221970-01-01%2000%3A00%22");
}

#[test]
fn query_out_of_calendar_range() {
    assert!(build_changed_since_query("P", Timestamp { utc_seconds: i64::MAX }).is_none());
}

#[test]
fn filter_expression_text() {
    assert_eq!(
        filter_expression("PROJ", "2019-09-01 05:00"),
        "project=PROJ AND updatedDate >= \"2019-09-01 05:00\""
    );
}

#[test]
fn urls() {
    assert_eq!(
        search_url("https://t/rest", "q", 50),
        "https://t/rest/search?jql=q&expand=names&maxResults=100&fields=updated&startAt=50"
    );
    assert!(issue_url("https://t/rest", "PROJ-1").starts_with("https://t/rest/issue/PROJ-1?fields=assignee,"));
}

#[test]
fn page_is_decoded() {
    let raw = "{\"startAt\":0,\"maxResults\":50,\"total\":120,\"issues\":[{\"id\":\"1\",\"key\":\"PROJ-1\",\"fields\":{}},{\"id\":\"2\",\"key\":\"PROJ-2\"}]}";
    let p = decode_page(raw, 50);
    assert_eq!(p.startAt, 50);
    assert_eq!(p.maxResults, 50);
    assert_eq!(p.total, 120);
    assert!(p.err.is_none());
    assert_eq!(p.issues.len(), 2);
    assert_eq!(p.issues[1].id, "2");
    assert_eq!(p.issues[1].key, "PROJ-2");
}

#[test]
fn page_decode_failures_are_kept() {
    let p = decode_page("<html>", 100);
    assert!(p.err.is_some());
    assert_eq!(p.startAt, 100);
    assert_eq!(p.total, 0);
    assert!(p.issues.is_empty());
    let q = decode_page("{\"startAt\":0,\"maxResults\":50,\"issues\":[]}", 0);
    assert!(q.err.is_some());
    let s = decode_page("{\"startAt\":0,\"maxResults\":50,\"total\":1,\"err\":\"boom\",\"issues\":[]}", 0);
    assert_eq!(s.err.as_deref(), Some("boom"));
}

#[test]
fn odd_records_do_not_fail_the_page() {
    let r = decode_page("{\"startAt\":0,\"maxResults\":50,\"total\":4,\"issues\":[{\"id\":3,\"key\":\"K\"},{\"id\":null,\"key\":7},{},5]}", 0);
    assert!(r.err.is_none());
    assert_eq!(r.total, 4);
    assert_eq!(r.issues.len(), 4);
    assert_eq!(r.issues[0].id, "3");
    assert_eq!(r.issues[0].key, "K");
    assert_eq!(r.issues[1].id, "");
    assert_eq!(r.issues[1].key, "");
    assert_eq!(r.issues[2].id, "");
    assert_eq!(r.issues[3].key, "");
}

#[test]
fn credentials_split_at_one_colon() {
    let c = parse_creds("alice:s3cret").unwrap();
    assert_eq!(c.un, "alice");
    assert_eq!(c.pw, "s3cret");
    assert!(parse_creds("alice").is_none());
    assert!(parse_creds("a:b:c").is_none());
    let e = parse_creds(":").unwrap();
    assert_eq!(e.un, "");
    assert_eq!(e.pw, "");
}

#[test]
fn collector_gathers_chunks() {
    let mut c = Collector::new();
    assert_eq!(c.write(b"ab"), 2);
    assert_eq!(c.write(b""), 0);
    assert_eq!(c.write(b"c"), 1);
    assert_eq!(c.content, b"abc".to_vec());
}
