//! Small verified string utilities: equality, decimal rendering and parsing,
//! whitespace trimming and character search, all specified over `Seq<char>`.

use vstd::prelude::*;
use vstd::string::*;

verus! {

/// Character-wise equality of two string slices.
pub fn str_eq(a: &str, b: &str) -> (r: bool)
    ensures
        r == (a@ == b@),
{
    let an = a.unicode_len();
    let bn = b.unicode_len();
    if an != bn {
        return false;
    }
    let mut i: usize = 0;
    while i < an
        invariant
            an == a@.len(),
            bn == b@.len(),
            an == bn,
            i <= an,
            forall|j: int| 0 <= j < i ==> a@[j] == b@[j],
        decreases an - i,
    {
        if a.get_char(i) != b.get_char(i) {
            return false;
        }
        i = i + 1;
    }
    proof {
        assert(a@ =~= b@);
    }
    true
}

/// The character for one decimal digit.
pub open spec fn spec_digit_char(d: int) -> char {
    if d == 0 {
        '0'
    } else if d == 1 {
        '1'
    } else if d == 2 {
        '2'
    } else if d == 3 {
        '3'
    } else if d == 4 {
        '4'
    } else if d == 5 {
        '5'
    } else if d == 6 {
        '6'
    } else if d == 7 {
        '7'
    } else if d == 8 {
        '8'
    } else {
        '9'
    }
}

/// The usual decimal rendering of a natural number, most significant digit
/// first, with no leading zeros (except for zero itself).
pub open spec fn spec_dec_digits(n: nat) -> Seq<char>
    decreases n,
{
    if n < 10 {
        seq![spec_digit_char(n as int)]
    } else {
        spec_dec_digits(n / 10).push(spec_digit_char((n % 10) as int))
    }
}

fn digit_str(d: u64) -> (r: &'static str)
    requires
        d < 10,
    ensures
        r@ == seq![spec_digit_char(d as int)],
{
    proof {
        reveal_strlit("0");
        reveal_strlit("1");
        reveal_strlit("2");
        reveal_strlit("3");
        reveal_strlit("4");
        reveal_strlit("5");
        reveal_strlit("6");
        reveal_strlit("7");
        reveal_strlit("8");
        reveal_strlit("9");
    }
    let r = match d {
        0 => "0",
        1 => "1",
        2 => "2",
        3 => "3",
        4 => "4",
        5 => "5",
        6 => "6",
        7 => "7",
        8 => "8",
        _ => "9",
    };
    proof {
        assert(r@ =~= seq![spec_digit_char(d as int)]);
    }
    r
}

/// Renders `n` in decimal.
pub fn u64_to_string(n: u64) -> (r: String)
    ensures
        r@ == spec_dec_digits(n as nat),
    decreases n,
{
    if n < 10 {
        String::from_str(digit_str(n))
    } else {
        let mut s = u64_to_string(n / 10);
        s.append(digit_str(n % 10));
        proof {
            assert(s@ =~= spec_dec_digits(n as nat));
        }
        s
    }
}

/// The decimal rendering of a signed integer: a minus sign for a negative
/// value, then the magnitude.
pub open spec fn spec_i32_dec(n: int) -> Seq<char> {
    if n < 0 {
        seq!['-'] + spec_dec_digits((-n) as nat)
    } else {
        spec_dec_digits(n as nat)
    }
}

/// Renders `n` in signed decimal.
pub fn i32_to_string(n: i32) -> (r: String)
    ensures
        r@ == spec_i32_dec(n as int),
{
    if n >= 0 {
        u64_to_string(n as u64)
    } else {
        let m = -(n as i64);
        let mut s = String::from_str("-");
        s.append(u64_to_string(m as u64).as_str());
        proof {
            reveal_strlit("-");
            assert(s@ =~= spec_i32_dec(n as int));
        }
        s
    }
}

/// Every character of the default decimal rendering is a digit.
pub proof fn lemma_dec_digits_are_digits(n: nat)
    ensures
        spec_dec_digits(n).len() >= 1,
        forall|i: int|
            0 <= i < spec_dec_digits(n).len() ==> is_dec_digit(#[trigger] spec_dec_digits(n)[i]),
    decreases n,
{
    if n >= 10 {
        lemma_dec_digits_are_digits(n / 10);
    }
}

/// Whether `c` is a decimal digit.
pub open spec fn is_dec_digit(c: char) -> bool {
    48 <= c as u32 <= 57
}

/// The value of a decimal digit; zero for anything else.
pub open spec fn spec_digit_val(c: char) -> int {
    if is_dec_digit(c) {
        c as u32 - 48
    } else {
        0
    }
}

/// The value of a digit string read left to right.
pub open spec fn spec_dec_val(s: Seq<char>) -> int
    decreases s.len(),
{
    if s.len() == 0 {
        0
    } else {
        spec_dec_val(s.drop_last()) * 10 + spec_digit_val(s.last())
    }
}

pub open spec fn all_dec_digits(s: Seq<char>) -> bool {
    forall|i: int| 0 <= i < s.len() ==> is_dec_digit(#[trigger] s[i])
}

/// The value of a digit string is never negative.
pub proof fn lemma_dec_val_nonneg(s: Seq<char>)
    ensures
        spec_dec_val(s) >= 0,
    decreases s.len(),
{
    if s.len() > 0 {
        lemma_dec_val_nonneg(s.drop_last());
    }
}

/// The value of a digit string grows (weakly) with each digit appended, so
/// the value of any prefix bounds the value of the whole from below.
pub proof fn lemma_dec_val_prefix(s: Seq<char>, i: int)
    requires
        0 <= i <= s.len(),
    ensures
        spec_dec_val(s.subrange(0, i)) <= spec_dec_val(s),
    decreases s.len() - i,
{
    if i < s.len() {
        lemma_dec_val_prefix(s, i + 1);
        lemma_dec_val_nonneg(s.subrange(0, i));
        assert(s.subrange(0, i + 1).drop_last() =~= s.subrange(0, i));
        assert(spec_dec_val(s.subrange(0, i)) <= spec_dec_val(s.subrange(0, i + 1)));
    } else {
        assert(s.subrange(0, i) =~= s);
    }
}

/// A decimal integer with an optional sign, as `i32::from_str` reads it:
/// the value if the string is an optional `+` or `-` followed by one or
/// more digits and the value fits, and nothing otherwise.
pub open spec fn spec_parse_i32(s: Seq<char>) -> Option<int> {
    if s.len() == 0 {
        None
    } else {
        let neg = s[0] == '-';
        let digits = if s[0] == '-' || s[0] == '+' {
            s.subrange(1, s.len() as int)
        } else {
            s
        };
        if digits.len() == 0 || !all_dec_digits(digits) {
            None
        } else {
            let mag = spec_dec_val(digits);
            if neg && mag <= 0x8000_0000 {
                Some(-mag)
            } else if !neg && mag <= 0x7fff_ffff {
                Some(mag)
            } else {
                None
            }
        }
    }
}

/// Reads a signed decimal integer, exactly as `spec_parse_i32` says.
pub fn parse_i32(s: &str) -> (r: Option<i32>)
    ensures
        match r {
            Some(v) => spec_parse_i32(s@) == Some(v as int),
            None => spec_parse_i32(s@) is None,
        },
{
    let n = s.unicode_len();
    if n == 0 {
        return None;
    }
    let c0 = s.get_char(0);
    let neg = c0 == '-';
    let start: usize = if c0 == '-' || c0 == '+' {
        1
    } else {
        0
    };
    if start == n {
        return None;
    }
    let ghost digits = if s@[0] == '-' || s@[0] == '+' {
        s@.subrange(1, s@.len() as int)
    } else {
        s@
    };
    let mut acc: u64 = 0;
    let mut i: usize = start;
    while i < n
        invariant
            n == s@.len(),
            start <= i <= n,
            start == 0 || start == 1,
            start == 1 <==> (s@[0] == '-' || s@[0] == '+'),
            neg == (s@[0] == '-'),
            digits == s@.subrange(start as int, n as int),
            forall|j: int| start <= j < i ==> is_dec_digit(#[trigger] s@[j]),
            acc == spec_dec_val(s@.subrange(start as int, i as int)),
            acc <= 0x8000_0000,
        decreases n - i,
    {
        let c = s.get_char(i);
        let cv = c as u32;
        if cv < 48 || cv > 57 {
            proof {
                assert(digits[i - start] == s@[i as int]);
                assert(!all_dec_digits(digits));
            }
            return None;
        }
        let d = (cv - 48) as u64;
        proof {
            let pre = s@.subrange(start as int, i as int);
            let post = s@.subrange(start as int, i + 1);
            assert(post.drop_last() =~= pre);
            assert(post.last() == s@[i as int]);
            assert(spec_digit_val(s@[i as int]) == d as int);
            assert(spec_dec_val(post) == spec_dec_val(pre) * 10 + spec_digit_val(s@[i as int]));
        }
        acc = acc * 10 + d;
        i = i + 1;
        proof {
            assert(acc == spec_dec_val(s@.subrange(start as int, i as int)));
        }
        if acc > 0x8000_0000 {
            proof {
                assert(s@.len() != 0);
                let negs = s@[0] == '-';
                let digs = if s@[0] == '-' || s@[0] == '+' {
                    s@.subrange(1, s@.len() as int)
                } else {
                    s@
                };
                assert(digs == digits);
                assert(digs.len() != 0);
                if all_dec_digits(digs) {
                    lemma_dec_val_prefix(digs, i - start);
                    assert(digs.subrange(0, i - start) =~= s@.subrange(start as int, i as int));
                    assert(spec_dec_val(digs) >= acc);
                    assert(spec_dec_val(digs) > 0x8000_0000);
                    assert(!(negs && spec_dec_val(digs) <= 0x8000_0000));
                    assert(!(!negs && spec_dec_val(digs) <= 0x7fff_ffff));
                    assert(spec_parse_i32(s@) is None);
                } else {
                    assert(spec_parse_i32(s@) is None);
                }
            }
            return None;
        }
    }
    proof {
        assert(digits =~= s@.subrange(start as int, i as int));
        assert(all_dec_digits(digits));
    }
    if neg {
        let v = -(acc as i64);
        Some(v as i32)
    } else if acc > 0x7fff_ffff {
        None
    } else {
        Some(acc as i32)
    }
}

/// Whitespace that is insignificant on a credential-file line.
pub open spec fn is_ini_ws(c: char) -> bool {
    c == ' ' || c == '\t' || c == '\r'
}

/// The first index at or after `i` that does not hold insignificant
/// whitespace, or the length if there is none.
pub open spec fn spec_ltrim_idx(s: Seq<char>, i: int) -> int
    decreases s.len() - i,
{
    if i < 0 || i >= s.len() {
        i
    } else if is_ini_ws(s[i]) {
        spec_ltrim_idx(s, i + 1)
    } else {
        i
    }
}

/// The end of the last non-whitespace character strictly before `j`, or
/// zero if there is none.
pub open spec fn spec_rtrim_idx(s: Seq<char>, j: int) -> int
    decreases j,
{
    if j <= 0 || j > s.len() {
        0
    } else if is_ini_ws(s[j - 1]) {
        spec_rtrim_idx(s, j - 1)
    } else {
        j
    }
}

/// `s` with insignificant whitespace removed at both ends.
pub open spec fn spec_trim(s: Seq<char>) -> Seq<char> {
    let lo = spec_ltrim_idx(s, 0);
    let hi = spec_rtrim_idx(s, s.len() as int);
    if lo < hi {
        s.subrange(lo, hi)
    } else {
        Seq::empty()
    }
}

/// Whether the character at position `i` is insignificant whitespace.
fn ws_at(s: &str, i: usize) -> (r: bool)
    requires
        i < s@.len(),
    ensures
        r == is_ini_ws(s@[i as int]),
{
    let c = s.get_char(i);
    c == ' ' || c == '\t' || c == '\r'
}

/// Returns an owned copy of `s` with whitespace trimmed at both ends.
pub fn trim_of(s: &str) -> (r: String)
    ensures
        r@ == spec_trim(s@),
{
    let n = s.unicode_len();
    let mut lo: usize = 0;
    while lo < n && ws_at(s, lo)
        invariant
            n == s@.len(),
            0 <= lo <= n,
            spec_ltrim_idx(s@, 0) == spec_ltrim_idx(s@, lo as int),
        decreases n - lo,
    {
        lo = lo + 1;
    }
    let mut hi: usize = n;
    while hi > 0 && ws_at(s, hi - 1)
        invariant
            n == s@.len(),
            0 <= hi <= n,
            spec_rtrim_idx(s@, n as int) == spec_rtrim_idx(s@, hi as int),
        decreases hi,
    {
        hi = hi - 1;
    }
    if lo < hi {
        String::from_str(s.substring_char(lo, hi))
    } else {
        String::new()
    }
}

/// The first index at or after `i` where `c` stands, or the length if `c`
/// does not occur there.
pub open spec fn spec_find_from(s: Seq<char>, i: int, c: char) -> int
    decreases s.len() - i,
{
    if i < 0 || i >= s.len() {
        s.len() as int
    } else if s[i] == c {
        i
    } else {
        spec_find_from(s, i + 1, c)
    }
}

/// Scans for `c` from position `from` on.
pub fn find_char_from(s: &str, from: usize, c: char) -> (r: usize)
    requires
        from <= s@.len(),
    ensures
        r == spec_find_from(s@, from as int, c),
        from <= r <= s@.len(),
        r < s@.len() ==> s@[r as int] == c,
        forall|j: int| from <= j < r ==> s@[j] != c,
{
    let n = s.unicode_len();
    let mut i: usize = from;
    while i < n && s.get_char(i) != c
        invariant
            n == s@.len(),
            from <= i <= n,
            spec_find_from(s@, from as int, c) == spec_find_from(s@, i as int, c),
            forall|j: int| from <= j < i ==> s@[j] != c,
        decreases n - i,
    {
        i = i + 1;
    }
    i
}

} // verus!
