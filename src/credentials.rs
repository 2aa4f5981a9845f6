//! Credentials for the tracker's API, read from a `user:password` value.
use vstd::prelude::*;

verus! {

/// A user name and password, for example those of a service account.
#[derive(Debug)]
pub struct Creds {
    pub un: String,
    pub pw: String,
}

/// The number of `:` characters in `s`.
pub open spec fn colon_count(s: Seq<char>) -> nat
    decreases s.len(),
{
    if s.len() == 0 {
        0
    } else {
        colon_count(s.drop_last()) + if s.last() == ':' { 1nat } else { 0nat }
    }
}

/// Splits a `user:password` value at its one colon; `None` when the value
/// holds no colon or more than one.
pub fn parse_creds(val: &str) -> (r: Option<Creds>)
    ensures
        r is Some <==> colon_count(val@) == 1,
        r matches Some(c) ==> val@ == c.un@ + ":"@ + c.pw@ && colon_count(c.un@) == 0,
{
    let n = val.unicode_len();
    let mut count: usize = 0;
    let mut at: usize = 0;
    let mut i: usize = 0;
    while i < n
        invariant
            n == val@.len(),
            i <= n,
            count == colon_count(val@.subrange(0, i as int)),
            count <= i,
            count >= 1 ==> at < i && val@[at as int] == ':' && colon_count(
                val@.subrange(0, at as int),
            ) == 0,
        decreases n - i,
    {
        let ghost pre = val@.subrange(0, i as int);
        assert(val@.subrange(0, i + 1).drop_last() == pre);
        if val.get_char(i) == ':' {
            if count == 0 {
                at = i;
            }
            count = count + 1;
        }
        i = i + 1;
    }
    assert(val@.subrange(0, n as int) == val@);
    if count != 1 {
        return None;
    }
    let un = val.substring_char(0, at);
    let pw = val.substring_char(at + 1, n);
    proof {
        reveal_strlit(":");
        assert(val@ == un@ + ":"@ + pw@);
    }
    Some(Creds { un: String::from_str(un), pw: String::from_str(pw) })
}

} // verus!
