use fd_jira::json::Json;
use fd_jira::numbers::{decimal_text, parse_i64, parse_usize};
use fd_jira::types::{
    points, vi64, vstr, vstr_or, Component, Issue, IssueType, MapError, Person, Status,
};

fn record(status: &str, issue_type: &str, created: &str, updated: &str) -> String {
    format!(
        "{{\"id\":\"10001\",\"key\":\"PROJ-1\",\"fields\":{{\"summary\":\"Fix login\",\"description\":null,\"status\":{{\"name\":\"{}\"}},\"issuetype\":{{\"name\":\"{}\"}},\"components\":[{{\"name\":\"Mojo\"}},{{\"name\":\"Gizmo\"}}],\"customfield_10002\":5,\"assignee\":{{\"key\":\"jdoe\",\"emailAddress\":\"jdoe@example.com\",\"displayName\":\"J Doe\"}},\"created\":\"{}\",\"updated\":\"{}\",\"resolutiondate\":null}}}}",
        status, issue_type, created, updated
    )
}

const CREATED: &str = "2019-09-03T10:12:32.000-0500";
const UPDATED: &str = "2019-09-01T00:00:00.000-0500";

#[test]
fn issue_round_trip_known_values() {
    let issue = Issue::from_value(&record("Done", "Epic", CREATED, UPDATED)).unwrap();
    assert_eq!(issue.key, "PROJ-1");
    assert!(matches!(issue.status, Status::Done));
    assert!(matches!(issue.issue_type, IssueType::Epic));
    assert_eq!(issue.id, 10001);
    assert_eq!(issue.summary, "Fix login");
    assert_eq!(issue.description, "");
    assert_eq!(issue.points, "5");
    assert_eq!(issue.created.utc_seconds, 1567523552);
    assert_eq!(issue.updated.utc_seconds, 1567314000);
    assert!(issue.resolution_date.is_none());
    assert_eq!(issue.components.len(), 2);
    assert!(matches!(issue.components[0], Component::Mojo));
    assert!(matches!(&issue.components[1], Component::Other(s) if s == "Gizmo"));
    let person = issue.assignee.unwrap();
    assert_eq!(person.key, "jdoe");
    assert_eq!(person.email, "jdoe@example.com");
    assert_eq!(person.name, "J Doe");
}

#[test]
fn unknown_status_is_preserved() {
    let issue = Issue::from_value(&record("Triaged", "Spike", CREATED, UPDATED)).unwrap();
    assert!(matches!(&issue.status, Status::Other(s) if s == "Triaged"));
    assert!(matches!(&issue.issue_type, IssueType::Other(s) if s == "Spike"));
}

#[test]
fn malformed_document_is_a_decode_error() {
    assert!(matches!(Issue::from_value("{\"key\": "), Err(MapError::Decode(_))));
}

#[test]
fn malformed_created_is_reported() {
    let r = Issue::from_value(&record("Done", "Epic", "yesterday", UPDATED));
    assert!(matches!(r, Err(MapError::BadCreated)));
}

#[test]
fn malformed_updated_is_reported() {
    let r = Issue::from_value(&record("Done", "Epic", CREATED, "2019-13-01"));
    assert!(matches!(r, Err(MapError::BadUpdated)));
}

#[test]
fn missing_optional_fields_read_as_empty() {
    let raw = format!(
        "{{\"key\":\"PROJ-2\",\"id\":7,\"fields\":{{\"created\":\"{}\",\"updated\":\"{}\"}}}}",
        CREATED, UPDATED
    );
    let issue = Issue::from_value(&raw).unwrap();
    assert_eq!(issue.id, 7);
    assert_eq!(issue.summary, "");
    assert_eq!(issue.points, "0");
    assert!(issue.assignee.is_none());
    assert!(issue.components.is_empty());
    assert!(matches!(&issue.status, Status::Other(s) if s.is_empty()));
}

#[test]
fn open_enums_known_and_other() {
    assert!(matches!(Status::from_string("Done"), Status::Done));
    assert!(matches!(Status::from_string("Deleted"), Status::Deleted));
    assert!(matches!(Status::from_string(""), Status::Other(s) if s.is_empty()));
    assert!(matches!(Status::from_string("done"), Status::Other(s) if s == "done"));
    assert!(matches!(IssueType::from_string("Story"), IssueType::Story));
    assert!(matches!(IssueType::from_string("Issue"), IssueType::Issue));
    assert!(matches!(IssueType::from_string("Épopée"), IssueType::Other(s) if s == "Épopée"));
    assert!(matches!(Component::from_string("Design"), Component::Design));
    assert!(matches!(Component::from_string("Ironman"), Component::Ironman));
    assert!(matches!(Component::from_string("X"), Component::Other(s) if s == "X"));
}

#[test]
fn person_needs_a_key() {
    let absent = Json::Object(vec![("emailAddress".to_string(), Json::Str("a@b.c".to_string()))]);
    assert!(Person::from_value_opt(Some(&absent)).is_none());
    assert!(Person::from_value_opt(None).is_none());
    let empty = Json::Object(vec![("key".to_string(), Json::Str(String::new()))]);
    assert!(Person::from_value_opt(Some(&empty)).is_none());
    let present = Json::Object(vec![("key".to_string(), Json::Str("k".to_string()))]);
    let p = Person::from_value_opt(Some(&present)).unwrap();
    assert_eq!(p.key, "k");
    assert_eq!(p.email, "");
}

#[test]
fn text_helpers() {
    let s = Json::Str("abc".to_string());
    let n = Json::Number("12.5".to_string());
    assert_eq!(vstr(Some(&s)), "abc");
    assert_eq!(vstr(Some(&n)), "");
    assert_eq!(vstr(None), "");
    assert_eq!(vstr_or(None, "dflt"), "dflt");
    assert_eq!(points(Some(&n)), "12.5");
    assert_eq!(points(Some(&s)), "0");
}

#[test]
fn estimates_sent_as_text() {
    let text = |t: &str| Json::Str(t.to_string());
    assert_eq!(points(Some(&text("5"))), "5");
    assert_eq!(points(Some(&text("-0.5"))), "-0.5");
    assert_eq!(points(Some(&text("+13"))), "+13");
    assert_eq!(points(Some(&text("1."))), "0");
    assert_eq!(points(Some(&text(".5"))), "0");
    assert_eq!(points(Some(&text("1.2.3"))), "0");
    assert_eq!(points(Some(&text("1e3"))), "0");
    assert_eq!(points(Some(&text(""))), "0");
    assert_eq!(points(Some(&Json::Null)), "0");
    assert_eq!(points(None), "0");
}

#[test]
fn numbers_sent_as_text() {
    assert_eq!(vi64(Some(&Json::Str("123".to_string()))), 123);
    assert_eq!(vi64(Some(&Json::Str("-42".to_string()))), -42);
    assert_eq!(vi64(Some(&Json::Str("12a".to_string()))), 0);
    assert_eq!(vi64(Some(&Json::Number("5".to_string()))), 5);
    assert_eq!(vi64(Some(&Json::Number("2.5".to_string()))), 0);
    assert_eq!(vi64(Some(&Json::Null)), 0);
    assert_eq!(vi64(None), 0);
}

#[test]
fn integer_text_edges() {
    assert_eq!(parse_i64("-9223372036854775808"), Some(i64::MIN));
    assert_eq!(parse_i64("9223372036854775807"), Some(i64::MAX));
    assert_eq!(parse_i64("9223372036854775808"), None);
    assert_eq!(parse_i64("+5"), Some(5));
    assert_eq!(parse_i64(""), None);
    assert_eq!(parse_i64("-"), None);
    assert_eq!(parse_i64(" 1"), None);
    assert_eq!(parse_usize("120"), Some(120));
    assert_eq!(parse_usize("-1"), None);
    assert_eq!(parse_usize("1.0"), None);
}

#[test]
fn decimal_text_values() {
    assert_eq!(decimal_text(0), "0");
    assert_eq!(decimal_text(7), "7");
    assert_eq!(decimal_text(120), "120");
    assert_eq!(decimal_text(usize::MAX), usize::MAX.to_string());
}
