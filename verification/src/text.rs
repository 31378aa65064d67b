//! Small verified operations on text.

use vstd::prelude::*;
use vstd::string::StrSliceExecFns;
use vstd::string::StringExecFns;

verus! {

pub open spec fn is_ascii_digit(c: char) -> bool {
    '0' <= c <= '9'
}

/// `c` with an ASCII upper-case letter turned into lower case.
pub open spec fn ascii_lower(c: char) -> char {
    if 'A' <= c <= 'Z' {
        ((c as int) + 32) as char
    } else {
        c
    }
}

/// Whether `s` holds `pattern` as a contiguous part, ASCII letters compared
/// regardless of case (`pattern` itself is in lower case).
pub open spec fn contains_ignore_ascii_case(s: Seq<char>, pattern: Seq<char>) -> bool {
    exists|i: int| 0 <= i && i + pattern.len() <= s.len() && #[trigger] matches_at(s, pattern, i)
}

/// Whether `pattern` stands in `s` from position `i` on, ASCII letters of
/// `s` compared in lower case.
pub open spec fn matches_at(s: Seq<char>, pattern: Seq<char>, i: int) -> bool {
    forall|j: int| 0 <= j < pattern.len() ==> #[trigger] ascii_lower(s[i + j]) == pattern[j]
}

/// Whether `s` is `tt` followed by between `min` and `max` ASCII digits.
pub open spec fn is_tt_digits(s: Seq<char>, min: int, max: int) -> bool {
    &&& s.len() >= 2
    &&& s[0] == 't'
    &&& s[1] == 't'
    &&& min <= s.len() - 2 <= max
    &&& forall|i: int| 2 <= i < s.len() ==> is_ascii_digit(#[trigger] s[i])
}

pub open spec fn digit_char(d: nat) -> char {
    ((('0' as int) + d) as char)
}

/// The decimal notation of `n`, without leading zeros.
pub open spec fn decimal(n: nat) -> Seq<char>
    decreases n,
{
    if n < 10 {
        seq![digit_char(n)]
    } else {
        decimal(n / 10) + seq![digit_char(n % 10)]
    }
}

/// Whether two strings are equal.
pub fn str_eq(a: &str, b: &str) -> (r: bool)
    ensures
        r == (a@ == b@),
{
    let n = a.unicode_len();
    if n != b.unicode_len() {
        return false;
    }
    let mut i: usize = 0;
    while i < n
        invariant
            n == a@.len(),
            n == b@.len(),
            i <= n,
            forall|j: int| 0 <= j < i ==> a@[j] == b@[j],
        decreases n - i,
    {
        if a.get_char(i) != b.get_char(i) {
            return false;
        }
        i = i + 1;
    }
    assert(a@ =~= b@);
    true
}

/// Whether `s` is `tt` followed by between `min` and `max` ASCII digits.
pub fn tt_digits(s: &str, min: usize, max: usize) -> (r: bool)
    ensures
        r == is_tt_digits(s@, min as int, max as int),
{
    let n = s.unicode_len();
    if n < 2 || s.get_char(0) != 't' || s.get_char(1) != 't' {
        return false;
    }
    let digits = n - 2;
    if digits < min || digits > max {
        return false;
    }
    let mut i: usize = 2;
    while i < n
        invariant
            n == s@.len(),
            2 <= i <= n,
            forall|j: int| 2 <= j < i ==> is_ascii_digit(#[trigger] s@[j]),
        decreases n - i,
    {
        let c = s.get_char(i);
        if !('0' <= c && c <= '9') {
            return false;
        }
        i = i + 1;
    }
    true
}

/// Whether `s` contains `lower` regardless of ASCII case; `upper` is the
/// same pattern in upper case, and the pattern consists of ASCII letters.
pub fn contains_ignoring_case(s: &str, lower: &str, upper: &str) -> (r: bool)
    requires
        lower@.len() == upper@.len(),
        forall|j: int|
            0 <= j < lower@.len() ==> 'a' <= #[trigger] lower@[j] <= 'z' && upper@[j] == ((
            lower@[j] as int) - 32) as char,
    ensures
        r == contains_ignore_ascii_case(s@, lower@),
{
    let n = s.unicode_len();
    let m = lower.unicode_len();
    if m > n {
        assert(!contains_ignore_ascii_case(s@, lower@));
        return false;
    }
    let mut i: usize = 0;
    while i <= n - m
        invariant
            n == s@.len(),
            m == lower@.len(),
            m == upper@.len(),
            m <= n,
            i <= n - m + 1,
            forall|j: int|
                0 <= j < lower@.len() ==> 'a' <= #[trigger] lower@[j] <= 'z' && upper@[j] == ((
                lower@[j] as int) - 32) as char,
            forall|k: int| 0 <= k < i ==> !#[trigger] matches_at(s@, lower@, k),
        decreases n - i,
    {
        let mut j: usize = 0;
        let mut all = true;
        while j < m
            invariant
                n == s@.len(),
                m == lower@.len(),
                m == upper@.len(),
                i + m <= n,
                j <= m,
                forall|q: int|
                    0 <= q < lower@.len() ==> 'a' <= #[trigger] lower@[q] <= 'z' && upper@[q]
                        == ((lower@[q] as int) - 32) as char,
                all == (forall|q: int| 0 <= q < j ==> #[trigger] ascii_lower(s@[i + q]) == lower@[q]),
            decreases m - j,
        {
            let c = s.get_char(i + j);
            let p = lower.get_char(j);
            let u = upper.get_char(j);
            let same = c == p || c == u;
            assert(same == (ascii_lower(c) == p));
            if !same {
                all = false;
            }
            j = j + 1;
        }
        if all {
            assert(matches_at(s@, lower@, i as int));
            return true;
        }
        i = i + 1;
    }
    assert forall|k: int|
        0 <= k && k + lower@.len() <= s@.len() implies !#[trigger] matches_at(s@, lower@, k) by {
        assert(k < i);
    }
    false
}

fn digit_str(d: u64) -> (r: &'static str)
    requires
        d < 10,
    ensures
        r@ == seq![digit_char(d as nat)],
{
    proof {
        reveal_strlit("0");
        reveal_strlit("1");
        reveal_strlit("2");
        reveal_strlit("3");
        reveal_strlit("4");
        reveal_strlit("5");
        reveal_strlit("6");
        reveal_strlit("7");
        reveal_strlit("8");
        reveal_strlit("9");
    }
    let r = if d == 0 {
        "0"
    } else if d == 1 {
        "1"
    } else if d == 2 {
        "2"
    } else if d == 3 {
        "3"
    } else if d == 4 {
        "4"
    } else if d == 5 {
        "5"
    } else if d == 6 {
        "6"
    } else if d == 7 {
        "7"
    } else if d == 8 {
        "8"
    } else {
        "9"
    };
    assert(r@ =~= seq![digit_char(d as nat)]);
    r
}

/// Appends the decimal notation of `n` to `s`.
pub fn append_decimal(s: &mut String, n: u64)
    ensures
        final(s)@ == old(s)@ + decimal(n as nat),
    decreases n,
{
    if n >= 10 {
        append_decimal(s, n / 10);
    }
    s.append(digit_str(n % 10));
    assert(final(s)@ =~= old(s)@ + decimal(n as nat));
}

/// The decimal notation of `n`.
pub fn decimal_string(n: u64) -> (r: String)
    ensures
        r@ == decimal(n as nat),
{
    let mut s = String::new();
    append_decimal(&mut s, n);
    assert(s@ =~= decimal(n as nat));
    s
}

} // verus!
