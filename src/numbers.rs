//! Decimal text of integers: reading it leniently and writing it.
use vstd::prelude::*;

verus! {

pub open spec fn is_digit(c: char) -> bool {
    '0' <= c && c <= '9'
}

pub open spec fn digit_value(c: char) -> int {
    c as int - '0' as int
}

/// A non-empty run of decimal digits.
pub open spec fn all_digits(s: Seq<char>) -> bool {
    s.len() > 0 && forall|i: int| 0 <= i < s.len() ==> is_digit(#[trigger] s[i])
}

/// The number that a run of decimal digits denotes.
pub open spec fn digits_value(s: Seq<char>) -> int
    decreases s.len(),
{
    if s.len() == 0 {
        0
    } else {
        digits_value(s.drop_last()) * 10 + digit_value(s.last())
    }
}

/// The integer that `s` denotes: an optional `+` or `-` sign, then digits.
pub open spec fn signed_value(s: Seq<char>) -> Option<int> {
    if s.len() > 0 && s[0] == '-' && all_digits(s.drop_first()) {
        Some(-digits_value(s.drop_first()))
    } else if s.len() > 0 && s[0] == '+' && all_digits(s.drop_first()) {
        Some(digits_value(s.drop_first()))
    } else if all_digits(s) {
        Some(digits_value(s))
    } else {
        None
    }
}

/// The `i64` that `s` denotes, if it denotes one that fits.
pub open spec fn i64_of(s: Seq<char>) -> Option<int> {
    match signed_value(s) {
        Some(v) => if i64::MIN <= v <= i64::MAX { Some(v) } else { None },
        None => None,
    }
}

/// The `usize` that `s` denotes: digits alone, of a value that fits.
pub open spec fn usize_of(s: Seq<char>) -> Option<int> {
    if all_digits(s) && digits_value(s) <= usize::MAX {
        Some(digits_value(s))
    } else {
        None
    }
}

proof fn lemma_digits_nonneg(s: Seq<char>)
    requires
        forall|i: int| 0 <= i < s.len() ==> is_digit(#[trigger] s[i]),
    ensures
        digits_value(s) >= 0,
    decreases s.len(),
{
    if s.len() > 0 {
        lemma_digits_nonneg(s.drop_last());
    }
}

/// A longer run of digits is worth at least as much as its prefix.
proof fn lemma_digits_prefix(s: Seq<char>, j: int)
    requires
        0 <= j <= s.len(),
        forall|i: int| 0 <= i < s.len() ==> is_digit(#[trigger] s[i]),
    ensures
        digits_value(s) >= digits_value(s.subrange(0, j)),
    decreases s.len(),
{
    if j < s.len() {
        lemma_digits_nonneg(s.drop_last());
        lemma_digits_prefix(s.drop_last(), j);
        assert(s.drop_last().subrange(0, j) == s.subrange(0, j));
    } else {
        assert(s.subrange(0, j) == s);
    }
}

/// Reads the digits of `s` from position `start` to the end, as long as the
/// value stays within `cap`; `None` when a character is not a digit, when there
/// is none, or when the value exceeds `cap`.
fn read_digits(s: &str, start: usize, cap: u64) -> (r: Option<u64>)
    requires
        start <= s@.len(),
        cap >= 9,
    ensures
        ({
            let t = s@.subrange(start as int, s@.len() as int);
            match r {
                Some(v) => all_digits(t) && v == digits_value(t) && v <= cap,
                None => !all_digits(t) || digits_value(t) > cap,
            }
        }),
{
    let ghost t = s@.subrange(start as int, s@.len() as int);
    let n = s.unicode_len();
    if start == n {
        return None;
    }
    let mut acc: u64 = 0;
    let mut i: usize = start;
    while i < n
        invariant
            n == s@.len(),
            start <= i <= n,
            t == s@.subrange(start as int, n as int),
            forall|k: int| 0 <= k < i - start ==> is_digit(#[trigger] t[k]),
            acc == digits_value(t.subrange(0, i - start)),
            acc <= cap,
            cap >= 9,
        decreases n - i,
    {
        let c = s.get_char(i);
        if !('0' <= c && c <= '9') {
            assert(t[i - start] == c);
            return None;
        }
        let d = (c as u32 - '0' as u32) as u64;
        let ghost p = t.subrange(0, i + 1 - start);
        assert(p.drop_last() == t.subrange(0, i - start));
        assert(p.last() == c);
        if acc > (cap - d) / 10 {
            assert(digits_value(p) > cap) by (nonlinear_arith)
                requires
                    digits_value(p) == acc * 10 + d,
                    acc > (cap - d) / 10,
                    d <= 9,
                    d <= cap,
            {
            }
            assert(forall|k: int| 0 <= k < i + 1 - start ==> is_digit(#[trigger] t[k]));
            proof {
                if all_digits(t) {
                    lemma_digits_prefix(t, i + 1 - start);
                }
            }
            return None;
        }
        assert(acc * 10 + d <= cap) by (nonlinear_arith)
            requires
                acc <= (cap - d) / 10,
                d <= cap,
        {
        }
        acc = acc * 10 + d;
        i = i + 1;
    }
    assert(t.subrange(0, n - start) == t);
    Some(acc)
}

/// Reads `s` as a decimal `i64` with an optional sign, as Rust's integer
/// parsing does; `None` for anything else or a value that does not fit.
pub fn parse_i64(s: &str) -> (r: Option<i64>)
    ensures
        match r {
            Some(v) => i64_of(s@) == Some(v as int),
            None => i64_of(s@) is None,
        },
{
    let n = s.unicode_len();
    if n > 0 && s.get_char(0) == '-' {
        assert(s@.subrange(1, n as int) == s@.drop_first());
        match read_digits(s, 1, 0x8000_0000_0000_0000) {
            Some(m) => {
                if m == 0x8000_0000_0000_0000 {
                    Some(i64::MIN)
                } else {
                    Some(-(m as i64))
                }
            },
            None => None,
        }
    } else if n > 0 && s.get_char(0) == '+' {
        assert(s@.subrange(1, n as int) == s@.drop_first());
        match read_digits(s, 1, 0x7fff_ffff_ffff_ffff) {
            Some(m) => Some(m as i64),
            None => None,
        }
    } else {
        assert(s@.subrange(0, n as int) == s@);
        match read_digits(s, 0, 0x7fff_ffff_ffff_ffff) {
            Some(m) => Some(m as i64),
            None => None,
        }
    }
}

/// Reads `s` as a run of decimal digits that fits a `usize`.
pub fn parse_usize(s: &str) -> (r: Option<usize>)
    ensures
        match r {
            Some(v) => usize_of(s@) == Some(v as int),
            None => usize_of(s@) is None,
        },
{
    assert(s@.subrange(0, s@.len() as int) == s@);
    match read_digits(s, 0, usize::MAX as u64) {
        Some(m) => Some(m as usize),
        None => None,
    }
}

/// Unsigned decimal-number text: digits, with at most one point, which has
/// a digit on each side.
pub open spec fn unsigned_decimal(t: Seq<char>) -> bool {
    &&& t.len() > 0
    &&& is_digit(t[0])
    &&& is_digit(t.last())
    &&& forall|k: int| 0 <= k < t.len() ==> is_digit(#[trigger] t[k]) || t[k] == '.'
    &&& forall|a: int, b: int| 0 <= a < b < t.len() && #[trigger] t[a] == '.' ==> #[trigger] t[b] != '.'
}

/// Decimal-number text: an optional `+` or `-` sign, then an unsigned decimal number.
pub open spec fn decimal_number(s: Seq<char>) -> bool {
    if s.len() > 0 && (s[0] == '-' || s[0] == '+') {
        unsigned_decimal(s.drop_first())
    } else {
        unsigned_decimal(s)
    }
}

/// Whether `s` is decimal-number text, such as `5`, `-2` or `0.5`.
pub fn is_decimal_number(s: &str) -> (r: bool)
    ensures
        r == decimal_number(s@),
{
    let n = s.unicode_len();
    let start: usize = if n > 0 && (s.get_char(0) == '-' || s.get_char(0) == '+') { 1 } else { 0 };
    let ghost t = s@.subrange(start as int, n as int);
    assert(decimal_number(s@) == unsigned_decimal(t)) by {
        if start == 1 {
            assert(t == s@.drop_first());
        } else {
            assert(t == s@);
        }
    }
    if start == n {
        return false;
    }
    if !('0' <= s.get_char(start) && s.get_char(start) <= '9') {
        assert(t[0] == s@[start as int]);
        return false;
    }
    if !('0' <= s.get_char(n - 1) && s.get_char(n - 1) <= '9') {
        assert(t.last() == s@[n - 1]);
        return false;
    }
    let mut dot: usize = 0;
    let mut seen_dot = false;
    let mut i: usize = start;
    while i < n
        invariant
            n == s@.len(),
            start <= i <= n,
            t == s@.subrange(start as int, n as int),
            decimal_number(s@) == unsigned_decimal(t),
            forall|k: int| 0 <= k < i - start ==> is_digit(#[trigger] t[k]) || t[k] == '.',
            seen_dot ==> start <= dot < i && t[dot - start] == '.',
            forall|k: int|
                0 <= k < i - start && (!seen_dot || k != dot - start) ==> #[trigger] t[k] != '.',
        decreases n - i,
    {
        let c = s.get_char(i);
        assert(t[i - start] == c);
        if c == '.' {
            if seen_dot {
                assert(t[dot - start] == '.' && t[i - start] == '.');
                assert(!unsigned_decimal(t));
                return false;
            }
            seen_dot = true;
            dot = i;
        } else if !('0' <= c && c <= '9') {
            return false;
        }
        i = i + 1;
    }
    assert(t[0] == s@[start as int]);
    assert(t.last() == s@[n - 1]);
    assert forall|a: int, b: int| 0 <= a < b < t.len() && #[trigger] t[a] == '.' implies #[trigger] t[b] != '.' by {
        if seen_dot && a == dot - start {
        }
    }
    true
}

/// The ten decimal digits, in order.
pub open spec fn digit_table() -> Seq<char> {
    "0123456789"@
}

/// The decimal text of `n`, without sign or leading zeros.
pub open spec fn decimal(n: nat) -> Seq<char>
    decreases n,
{
    let last = digit_table().subrange((n % 10) as int, (n % 10) as int + 1);
    if n < 10 {
        last
    } else {
        decimal(n / 10) + last
    }
}

/// Writes `n` in decimal.
pub fn decimal_text(n: usize) -> (r: String)
    ensures
        r@ == decimal(n as nat),
    decreases n,
{
    let table = "0123456789";
    proof {
        reveal_strlit("0123456789");
    }
    let d = n % 10;
    let last = table.substring_char(d, d + 1);
    if n < 10 {
        String::from_str(last)
    } else {
        let mut s = decimal_text(n / 10);
        s.append(last);
        s
    }
}

} // verus!
