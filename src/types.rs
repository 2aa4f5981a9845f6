//! The tracker's records as entities, mapped tolerantly from decoded JSON.
//! Missing or ill-typed text fields read as the empty string; classification
//! fields are open enumerations that keep unrecognized text.
use vstd::prelude::*;
use crate::json::{decode_json, json_decode, member, str_eq, text_or_empty, Json};
use crate::numbers::{decimal_number, i64_of, is_decimal_number, parse_i64};
use crate::time::{parse_tracker_time, tracker_time, Timestamp};

verus! {

/// An optional reference to a value, read as an optional value.
pub open spec fn opt(v: Option<&Json>) -> Option<Json> {
    match v {
        Some(x) => Some(*x),
        None => None,
    }
}

/// `member` applied through an optional value.
pub open spec fn member_of(v: Option<Json>, key: Seq<char>) -> Option<Json> {
    match v {
        Some(j) => member(j, key),
        None => None,
    }
}

/// The member `key` of an optional value.
pub fn at<'a>(v: Option<&'a Json>, key: &str) -> (r: Option<&'a Json>)
    ensures
        opt(r) == member_of(opt(v), key@),
{
    match v {
        Some(j) => j.member(key),
        None => None,
    }
}

/// The text of a string value, or `default` for any other value or none.
pub fn vstr_or(v: Option<&Json>, default: &str) -> (r: String)
    ensures
        r@ == (match opt(v) {
            Some(Json::Str(s)) => s@,
            _ => default@,
        }),
{
    match v {
        Some(Json::Str(s)) => s.clone(),
        _ => String::from_str(default),
    }
}

/// The text of a string value; empty for any other value or none.
pub fn vstr(v: Option<&Json>) -> (r: String)
    ensures
        r@ == text_or_empty(opt(v)),
{
    let r = vstr_or(v, "");
    proof {
        reveal_strlit("");
    }
    r
}

/// A number sent as text or as a number: the `i64` that a string value or an
/// integer value denotes, and zero when the value is neither or does not
/// denote one that fits.
pub open spec fn lenient_i64(v: Option<Json>) -> int {
    match v {
        Some(Json::Str(s)) => match i64_of(s@) {
            Some(n) => n,
            None => 0,
        },
        Some(Json::Number(t)) => match i64_of(t@) {
            Some(n) => n,
            None => 0,
        },
        _ => 0,
    }
}

/// Reads a number sent as text or as a number, with zero as the fallback.
pub fn vi64(v: Option<&Json>) -> (r: i64)
    ensures
        r as int == lenient_i64(opt(v)),
{
    match v {
        Some(Json::Str(s)) => match parse_i64(s.as_str()) {
            Some(n) => n,
            None => 0,
        },
        Some(Json::Number(t)) => match parse_i64(t.as_str()) {
            Some(n) => n,
            None => 0,
        },
        _ => 0,
    }
}

/// The decimal text of an estimate: a number's text, or the text of a
/// string that is decimal-number text; `"0"` for anything else.
pub open spec fn points_text(v: Option<Json>) -> Seq<char> {
    match v {
        Some(Json::Number(t)) => t@,
        Some(Json::Str(s)) => if decimal_number(s@) { s@ } else { "0"@ },
        _ => "0"@,
    }
}

/// Reads an estimate as decimal text, sent as a number or as a string;
/// `"0"` when it is absent or not a number.
pub fn points(v: Option<&Json>) -> (r: String)
    ensures
        r@ == points_text(opt(v)),
{
    match v {
        Some(Json::Number(t)) => t.clone(),
        Some(Json::Str(s)) => if is_decimal_number(s.as_str()) {
            s.clone()
        } else {
            String::from_str("0")
        },
        _ => String::from_str("0"),
    }
}

/// The classification of an issue.
#[derive(Debug)]
pub enum IssueType {
    Unknown,
    Issue,
    Story,
    Epic,
    Other(String),
}

/// `r` is what the issue-type text `s` reads as.
pub open spec fn issue_type_named(r: IssueType, s: Seq<char>) -> bool {
    if s == "Issue"@ {
        r is Issue
    } else if s == "Story"@ {
        r is Story
    } else if s == "Epic"@ {
        r is Epic
    } else {
        r matches IssueType::Other(t) && t@ == s
    }
}

impl IssueType {
    /// Reads an issue type; unrecognized text becomes `Other` with the text kept.
    pub fn from_string(s: &str) -> (r: IssueType)
        ensures
            issue_type_named(r, s@),
            r matches IssueType::Other(t) ==> t@ == s@,
            !(r is Unknown),
    {
        if str_eq(s, "Issue") {
            IssueType::Issue
        } else if str_eq(s, "Story") {
            IssueType::Story
        } else if str_eq(s, "Epic") {
            IssueType::Epic
        } else {
            IssueType::Other(String::from_str(s))
        }
    }
}

/// A component that an issue belongs to.
#[derive(Debug)]
pub enum Component {
    Unknown,
    Mojo,
    Phoenix,
    Wolverine,
    Ironman,
    Product,
    Design,
    Other(String),
}

/// `r` is what the component text `s` reads as.
pub open spec fn component_named(r: Component, s: Seq<char>) -> bool {
    if s == "Mojo"@ {
        r is Mojo
    } else if s == "Phoenix"@ {
        r is Phoenix
    } else if s == "Wolverine"@ {
        r is Wolverine
    } else if s == "Ironman"@ {
        r is Ironman
    } else if s == "Product"@ {
        r is Product
    } else if s == "Design"@ {
        r is Design
    } else {
        r matches Component::Other(t) && t@ == s
    }
}

impl Component {
    /// Reads a component name; unrecognized text becomes `Other` with the text kept.
    pub fn from_string(s: &str) -> (r: Component)
        ensures
            component_named(r, s@),
            r matches Component::Other(t) ==> t@ == s@,
            !(r is Unknown),
    {
        if str_eq(s, "Mojo") {
            Component::Mojo
        } else if str_eq(s, "Phoenix") {
            Component::Phoenix
        } else if str_eq(s, "Wolverine") {
            Component::Wolverine
        } else if str_eq(s, "Ironman") {
            Component::Ironman
        } else if str_eq(s, "Product") {
            Component::Product
        } else if str_eq(s, "Design") {
            Component::Design
        } else {
            Component::Other(String::from_str(s))
        }
    }
}

/// The workflow status of an issue.
#[derive(Debug)]
pub enum Status {
    Unknown,
    Backlog,
    ReadyForWork,
    Active,
    Done,
    Deleted,
    Other(String),
}

/// `r` is what the status text `s` reads as.
pub open spec fn status_named(r: Status, s: Seq<char>) -> bool {
    if s == "Done"@ {
        r is Done
    } else if s == "Deleted"@ {
        r is Deleted
    } else {
        r matches Status::Other(t) && t@ == s
    }
}

impl Status {
    /// Reads a status; unrecognized text becomes `Other` with the text kept.
    pub fn from_string(s: &str) -> (r: Status)
        ensures
            status_named(r, s@),
            r matches Status::Other(t) ==> t@ == s@,
            !(r is Unknown),
    {
        if str_eq(s, "Done") {
            Status::Done
        } else if str_eq(s, "Deleted") {
            Status::Deleted
        } else {
            Status::Other(String::from_str(s))
        }
    }
}

/// Someone an issue is assigned to. Present only with a non-empty key.
#[derive(Debug)]
pub struct Person {
    pub key: String,
    pub email: String,
    pub name: String,
}

/// `r` is the person that the value `v` describes, if any.
pub open spec fn person_of(r: Option<Person>, v: Option<Json>) -> bool {
    let key = text_or_empty(member_of(v, "key"@));
    if key.len() == 0 {
        r is None
    } else {
        r matches Some(p) && p.key@ == key
            && p.email@ == text_or_empty(member_of(v, "emailAddress"@))
            && p.name@ == text_or_empty(member_of(v, "displayName"@))
    }
}

impl Person {
    /// Reads a person; absent, as a whole, when the key is missing or empty.
    pub fn from_value_opt(v: Option<&Json>) -> (r: Option<Person>)
        ensures
            person_of(r, opt(v)),
    {
        let key = vstr(at(v, "key"));
        let email = vstr(at(v, "emailAddress"));
        let name = vstr(at(v, "displayName"));
        if key.unicode_len() == 0 {
            None
        } else {
            Some(Person { key, email, name })
        }
    }
}

/// An issue in its full-record shape. The text fields `key`, `summary` and
/// `description` are empty where the record lacks them; `points` holds the
/// decimal text of the estimate, `"0"` where there is none.
#[derive(Debug)]
pub struct Issue {
    pub key: String,
    pub id: i64,
    pub summary: String,
    pub description: String,
    pub issue_type: IssueType,
    pub points: String,
    pub components: Vec<Component>,
    pub status: Status,
    pub resolution_date: Option<Timestamp>,
    pub created: Timestamp,
    pub assignee: Option<Person>,
    pub updated: Timestamp,
}

/// Why a full record could not be mapped.
#[derive(Debug)]
pub enum MapError {
    /// The text is not a JSON document; the decoder's message.
    Decode(String),
    /// The creation time is missing or malformed.
    BadCreated,
    /// The update time is missing or malformed.
    BadUpdated,
}

/// The text of the member `name` of the member `key` of `v`.
pub open spec fn name_of(v: Option<Json>, key: Seq<char>) -> Seq<char> {
    text_or_empty(member_of(member_of(v, key), "name"@))
}

/// The elements of an array value; none for anything else.
pub open spec fn elements(v: Option<Json>) -> Seq<Json> {
    match v {
        Some(Json::Array(items)) => items@,
        _ => Seq::empty(),
    }
}

/// `cs` are the components that the array value `v` lists, by name, in order.
pub open spec fn components_of(cs: Seq<Component>, v: Option<Json>) -> bool {
    cs.len() == elements(v).len() && forall|i: int|
        0 <= i < cs.len() ==> component_named(
            #[trigger] cs[i],
            text_or_empty(member(elements(v)[i], "name"@)),
        )
}

/// The instant that the text of a value denotes, if any.
pub open spec fn time_of(v: Option<Json>) -> Option<int> {
    tracker_time(text_or_empty(v))
}

/// `i` is the issue that the full-record document `j` describes, given its
/// creation and update times.
pub open spec fn issue_of(i: Issue, j: Json) -> bool {
    let fields = member(j, "fields"@);
    &&& i.key@ == text_or_empty(member(j, "key"@))
    &&& i.id as int == lenient_i64(member(j, "id"@))
    &&& i.summary@ == text_or_empty(member_of(fields, "summary"@))
    &&& i.description@ == text_or_empty(member_of(fields, "description"@))
    &&& i.points@ == points_text(member_of(fields, "customfield_10002"@))
    &&& issue_type_named(i.issue_type, name_of(fields, "issuetype"@))
    &&& status_named(i.status, name_of(fields, "status"@))
    &&& components_of(i.components@, member_of(fields, "components"@))
    &&& person_of(i.assignee, member_of(fields, "assignee"@))
    &&& time_of(member_of(fields, "created"@)) == Some(i.created.utc_seconds as int)
    &&& time_of(member_of(fields, "updated"@)) == Some(i.updated.utc_seconds as int)
    &&& match i.resolution_date {
        Some(t) => time_of(member_of(fields, "resolutiondate"@)) == Some(t.utc_seconds as int),
        None => time_of(member_of(fields, "resolutiondate"@)) is None,
    }
}

/// Reads the components that an array value lists.
pub fn components_from(v: Option<&Json>) -> (r: Vec<Component>)
    ensures
        components_of(r@, opt(v)),
{
    let mut r: Vec<Component> = Vec::new();
    match v {
        Some(Json::Array(items)) => {
            let mut i: usize = 0;
            while i < items.len()
                invariant
                    opt(v) == Some(Json::Array(*items)),
                    i <= items@.len(),
                    r@.len() == i,
                    forall|k: int|
                        0 <= k < i ==> component_named(
                            #[trigger] r@[k],
                            text_or_empty(member(items@[k], "name"@)),
                        ),
                decreases items.len() - i,
            {
                let name = vstr(items[i].member("name"));
                r.push(Component::from_string(name.as_str()));
                i = i + 1;
            }
        },
        _ => {},
    }
    r
}

/// Reads the instant in a timestamp value.
fn time_from(v: Option<&Json>) -> (r: Option<Timestamp>)
    ensures
        match r {
            Some(t) => time_of(opt(v)) == Some(t.utc_seconds as int),
            None => time_of(opt(v)) is None,
        },
{
    let text = vstr(v);
    parse_tracker_time(text.as_str())
}

impl Issue {
    /// Maps a full-record document. Fails only when the text is not JSON, or
    /// when the creation or update time is missing or malformed; any other
    /// unexpected content reads as empty, zero, absent or `Other`.
    pub fn from_value(raw: &str) -> (r: Result<Issue, MapError>)
        ensures
            match json_decode(raw@) {
                None => r matches Err(MapError::Decode(_)),
                Some(j) => {
                    let fields = member(j, "fields"@);
                    if time_of(member_of(fields, "created"@)) is None {
                        r matches Err(MapError::BadCreated)
                    } else if time_of(member_of(fields, "updated"@)) is None {
                        r matches Err(MapError::BadUpdated)
                    } else {
                        r matches Ok(i) && issue_of(i, j)
                    }
                },
            },
    {
        let val = match decode_json(raw) {
            Ok(v) => v,
            Err(msg) => {
                return Err(MapError::Decode(msg));
            },
        };
        let fields = val.member("fields");
        let created = match time_from(at(fields, "created")) {
            Some(t) => t,
            None => {
                return Err(MapError::BadCreated);
            },
        };
        let updated = match time_from(at(fields, "updated")) {
            Some(t) => t,
            None => {
                return Err(MapError::BadUpdated);
            },
        };
        let issue_type_name = vstr(at(at(fields, "issuetype"), "name"));
        let status_name = vstr(at(at(fields, "status"), "name"));
        Ok(Issue {
            key: vstr(val.member("key")),
            id: vi64(val.member("id")),
            summary: vstr(at(fields, "summary")),
            description: vstr(at(fields, "description")),
            issue_type: IssueType::from_string(issue_type_name.as_str()),
            points: points(at(fields, "customfield_10002")),
            components: components_from(at(fields, "components")),
            status: Status::from_string(status_name.as_str()),
            resolution_date: time_from(at(fields, "resolutiondate")),
            created,
            assignee: Person::from_value_opt(at(fields, "assignee")),
            updated,
        })
    }
}

} // verus!
