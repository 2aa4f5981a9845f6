//! Pages of search results: the records they carry and how a page's text is
//! decoded, with a failure kept in the page rather than raised.
use vstd::prelude::*;
use crate::json::{decode_json, json_decode, member, Json};
use crate::numbers::{parse_usize, usize_of};

verus! {

/// An issue in its search-result shape: the remote identifier (a number is
/// kept as its decimal text) and the human-readable key, unique per project.
/// Either is empty where the record does not carry it as text.
#[derive(Debug)]
pub struct IssueSearchResult {
    pub id: String,
    pub key: String,
}

impl IssueSearchResult {
    /// A copy of this record.
    pub fn copy(&self) -> (r: IssueSearchResult)
        ensures
            r.id@ == self.id@,
            r.key@ == self.key@,
    {
        IssueSearchResult { id: self.id.clone(), key: self.key.clone() }
    }
}

/// One page of a search: where it starts, the page size and total that the
/// server declared, the records, and the failure if the page could not be read.
#[allow(non_snake_case)]
#[derive(Debug)]
pub struct IssueSearchResultSet {
    pub startAt: usize,
    pub maxResults: usize,
    pub total: usize,
    pub err: Option<String>,
    pub issues: Vec<IssueSearchResult>,
}

/// Collects the body of a response as it arrives.
#[derive(Debug)]
pub struct Collector {
    pub content: Vec<u8>,
}

impl Collector {
    /// An empty collector.
    pub fn new() -> (r: Collector)
        ensures
            r.content@ == Seq::<u8>::empty(),
    {
        Collector { content: Vec::new() }
    }

    /// Appends a chunk of the body, and reports that all of it was taken.
    pub fn write(&mut self, data: &[u8]) -> (r: usize)
        ensures
            final(self).content@ == old(self).content@ + data@,
            r == data@.len(),
    {
        let mut i: usize = 0;
        while i < data.len()
            invariant
                i <= data@.len(),
                self.content@ == old(self).content@ + data@.subrange(0, i as int),
            decreases data.len() - i,
        {
            self.content.push(data[i]);
            assert(data@.subrange(0, i + 1) == data@.subrange(0, i as int).push(data@[i as int]));
            i = i + 1;
        }
        assert(data@.subrange(0, data@.len() as int) == data@);
        data.len()
    }
}

/// The count that the member `key` of `j` holds, if it is a number that fits.
pub open spec fn count_member(j: Json, key: Seq<char>) -> Option<int> {
    match member(j, key) {
        Some(Json::Number(t)) => usize_of(t@),
        _ => None,
    }
}

/// The text of a string member, empty for anything else.
pub open spec fn str_member(e: Json, key: Seq<char>) -> Seq<char> {
    match member(e, key) {
        Some(Json::Str(s)) => s@,
        _ => Seq::empty(),
    }
}

/// The identifier of a record: its text, or a number's decimal text; empty
/// for anything else.
pub open spec fn id_member(e: Json) -> Seq<char> {
    match member(e, "id"@) {
        Some(Json::Str(s)) => s@,
        Some(Json::Number(t)) => t@,
        _ => Seq::empty(),
    }
}

/// The records of a page document; none where `issues` is not an array.
pub open spec fn page_items(j: Json) -> Seq<Json> {
    match member(j, "issues"@) {
        Some(Json::Array(items)) => items@,
        _ => Seq::empty(),
    }
}

/// The failure that a page document reports of itself, if any.
pub open spec fn reported_err(j: Json) -> Option<Seq<char>> {
    match member(j, "err"@) {
        Some(Json::Str(s)) => Some(s@),
        _ => None,
    }
}

/// A page document has the shape of a page: the three counts, an array of
/// records, and a failure that is a string, null or absent. What a record
/// holds never makes a page fail.
pub open spec fn page_ok(j: Json) -> bool {
    &&& count_member(j, "startAt"@) is Some
    &&& count_member(j, "maxResults"@) is Some
    &&& count_member(j, "total"@) is Some
    &&& member(j, "issues"@) matches Some(Json::Array(_))
    &&& match member(j, "err"@) {
        None | Some(Json::Null) | Some(Json::Str(_)) => true,
        _ => false,
    }
}

/// `p` is the page read from the text `raw`, requested at `start_at`.
pub open spec fn page_of(p: IssueSearchResultSet, raw: Seq<char>, start_at: usize) -> bool {
    &&& p.startAt == start_at
    &&& match json_decode(raw) {
        Some(j) if page_ok(j) => {
            &&& p.maxResults as int == count_member(j, "maxResults"@)->0
            &&& p.total as int == count_member(j, "total"@)->0
            &&& match reported_err(j) {
                Some(e) => p.err matches Some(m) && m@ == e,
                None => p.err is None,
            }
            &&& p.issues@.len() == page_items(j).len()
            &&& forall|i: int|
                0 <= i < p.issues@.len() ==> (#[trigger] p.issues@[i]).id@ == id_member(
                    page_items(j)[i],
                ) && p.issues@[i].key@ == str_member(page_items(j)[i], "key"@)
        },
        _ => {
            &&& p.err is Some
            &&& p.maxResults == 0
            &&& p.total == 0
            &&& p.issues@.len() == 0
        },
    }
}

/// The count held by the member `key` of `j`.
fn count_from(j: &Json, key: &str) -> (r: Option<usize>)
    ensures
        match r {
            Some(n) => count_member(*j, key@) == Some(n as int),
            None => count_member(*j, key@) is None,
        },
{
    match j.member(key) {
        Some(Json::Number(t)) => parse_usize(t.as_str()),
        _ => None,
    }
}

/// A page that could not be read, with the reason.
fn failed_page(start_at: usize, reason: String) -> (r: IssueSearchResultSet)
    ensures
        r.startAt == start_at,
        r.err is Some,
        r.maxResults == 0,
        r.total == 0,
        r.issues@.len() == 0,
{
    IssueSearchResultSet { startAt: start_at, maxResults: 0, total: 0, err: Some(reason), issues: Vec::new() }
}

/// Reads the records of a page document. A record whose key is not text
/// gets an empty key; one whose identifier is neither text nor a number gets
/// an empty identifier.
fn summaries_from(items: &Vec<Json>) -> (r: Vec<IssueSearchResult>)
    ensures
        r@.len() == items@.len(),
        forall|i: int|
            0 <= i < r@.len() ==> (#[trigger] r@[i]).id@ == id_member(items@[i])
                && r@[i].key@ == str_member(items@[i], "key"@),
{
    let mut v: Vec<IssueSearchResult> = Vec::new();
    let mut i: usize = 0;
    while i < items.len()
        invariant
            i <= items@.len(),
            v@.len() == i,
            forall|k: int|
                0 <= k < i ==> (#[trigger] v@[k]).id@ == id_member(items@[k])
                    && v@[k].key@ == str_member(items@[k], "key"@),
        decreases items.len() - i,
    {
        let id = match items[i].member("id") {
            Some(Json::Str(s)) => s.clone(),
            Some(Json::Number(t)) => t.clone(),
            _ => String::new(),
        };
        let key = match items[i].member("key") {
            Some(Json::Str(s)) => s.clone(),
            _ => String::new(),
        };
        v.push(IssueSearchResult { id, key });
        i = i + 1;
    }
    v
}

/// Decodes the text of a search page requested at `start_at`. A failure to
/// read it is kept in `err`, with zero counts and no records.
pub fn decode_page(raw: &str, start_at: usize) -> (r: IssueSearchResultSet)
    ensures
        page_of(r, raw@, start_at),
{
    let j = match decode_json(raw) {
        Ok(j) => j,
        Err(msg) => {
            return failed_page(start_at, msg);
        },
    };
    let max_results = match count_from(&j, "maxResults") {
        Some(n) => n,
        None => {
            return failed_page(start_at, String::from_str("missing or invalid field maxResults"));
        },
    };
    let total = match count_from(&j, "total") {
        Some(n) => n,
        None => {
            return failed_page(start_at, String::from_str("missing or invalid field total"));
        },
    };
    if count_from(&j, "startAt").is_none() {
        return failed_page(start_at, String::from_str("missing or invalid field startAt"));
    }
    let err = match j.member("err") {
        None => None,
        Some(Json::Null) => None,
        Some(Json::Str(s)) => Some(s.clone()),
        Some(_) => {
            return failed_page(start_at, String::from_str("invalid field err"));
        },
    };
    let issues = match j.member("issues") {
        Some(Json::Array(items)) => summaries_from(items),
        _ => {
            return failed_page(start_at, String::from_str("missing or invalid field issues"));
        },
    };
    IssueSearchResultSet { startAt: start_at, maxResults: max_results, total, err, issues }
}

} // verus!
