//! The query builder: a filter expression for one project's changes since an
//! instant, encoded for a URL, and the request URLs that carry it.
use vstd::prelude::*;
use crate::numbers::{decimal, decimal_text};
use crate::time::{format_utc_minute, minute_start, utc_minute_text, Timestamp};
use vstd::utf8::encode_utf8;

verus! {

/// A byte left as it is by percent-encoding: an ASCII letter or digit, or one
/// of `-`, `_`, `.`, `~`.
pub open spec fn unreserved(b: u8) -> bool {
    (48 <= b <= 57) || (65 <= b <= 90) || (97 <= b <= 122) || b == 45 || b == 95 || b == 46
        || b == 126
}

/// The upper-case hexadecimal digit of `n`, below sixteen.
pub open spec fn hex_digit(n: int) -> char {
    "0123456789ABCDEF"@[n]
}

/// The percent-encoding of a byte sequence: unreserved bytes as their ASCII
/// character, every other byte as `%` and two upper-case hex digits.
pub open spec fn percent_encoded(bytes: Seq<u8>) -> Seq<char>
    decreases bytes.len(),
{
    if bytes.len() == 0 {
        Seq::empty()
    } else {
        let b = bytes.last();
        percent_encoded(bytes.drop_last()) + if unreserved(b) {
            seq![b as char]
        } else {
            seq!['%', hex_digit(b as int / 16), hex_digit(b as int % 16)]
        }
    }
}

/// The percent-encoding of the UTF-8 bytes of `s`, for a URL query string.
pub open spec fn url_encoded(s: Seq<char>) -> Seq<char> {
    percent_encoded(encode_utf8(s))
}

/// Relies on `urlencoding::encode`: every byte of the UTF-8 text but ASCII
/// letters, digits and `-_.~` becomes `%XX` with upper-case hex digits.
#[verifier::external_body]
pub(crate) fn url_encode(s: &str) -> (r: String)
    ensures
        r@ == url_encoded(s@),
{
    urlencoding::encode(s).into_owned()
}

/// The filter expression selecting the records of `project` updated at or
/// after the minute `since`.
pub open spec fn filter_text(project: Seq<char>, since: Seq<char>) -> Seq<char> {
    "project="@ + project + " AND updatedDate >= \""@ + since + "\""@
}

/// Writes the filter expression for `project` and the minute text `since`.
pub fn filter_expression(project: &str, since: &str) -> (r: String)
    ensures
        r@ == filter_text(project@, since@),
{
    let mut q = String::from_str("project=");
    q.append(project);
    q.append(" AND updatedDate >= \"");
    q.append(since);
    q.append("\"");
    q
}

/// Builds the encoded query selecting the records of `project` changed at or
/// after `since`. The instant is rendered in UTC at minute precision, so the
/// same instant gives the same query whatever offset it was read with.
/// Two instants within the same minute give the same query. `None` only when
/// the instant lies outside the calendar's range.
pub fn build_changed_since_query(project: &str, since: Timestamp) -> (r: Option<String>)
    ensures
        match utc_minute_text(minute_start(since.utc_seconds as int)) {
            Some(d) => r matches Some(q) && q@ == url_encoded(filter_text(project@, d)),
            None => r is None,
        },
{
    match format_utc_minute(since) {
        Some(d) => {
            let expr = filter_expression(project, d.as_str());
            Some(url_encode(expr.as_str()))
        },
        None => None,
    }
}

/// The URL of the search for the records that `query` selects, starting at
/// position `start_at` of the result set.
pub open spec fn search_url_text(base_url: Seq<char>, query: Seq<char>, start_at: nat) -> Seq<char> {
    base_url + "/search?jql="@ + query + "&expand=names&maxResults=100&fields=updated&startAt="@
        + decimal(start_at)
}

/// Writes the URL of one page of a search.
pub fn search_url(base_url: &str, query: &str, start_at: usize) -> (r: String)
    ensures
        r@ == search_url_text(base_url@, query@, start_at as nat),
{
    let mut u = String::from_str(base_url);
    u.append("/search?jql=");
    u.append(query);
    u.append("&expand=names&maxResults=100&fields=updated&startAt=");
    let n = decimal_text(start_at);
    u.append(n.as_str());
    u
}

/// The fields requested for a full record.
pub open spec fn detail_fields() -> Seq<char> {
    "?fields=assignee,status,summary,description,created,updated,resolutiondate,issuetype,components,priority,resolution,customfield_10002"@
}

/// Writes the URL of the full record of the issue `key`.
pub fn issue_url(base_url: &str, key: &str) -> (r: String)
    ensures
        r@ == base_url@ + "/issue/"@ + key@ + detail_fields(),
{
    let mut u = String::from_str(base_url);
    u.append("/issue/");
    u.append(key);
    u.append("?fields=assignee,status,summary,description,created,updated,resolutiondate,issuetype,components,priority,resolution,customfield_10002");
    u
}

} // verus!
