use vstd::prelude::*;

use crate::numtext::{all_digits, dec_value, parse_usize};

verus! {

/// The digits of `s` once one leading `+` or `-` is set aside, and whether it was `-`.
pub open spec fn unsigned_part(s: Seq<char>) -> (bool, Seq<char>) {
    if s.len() > 0 && (s[0] == '+' || s[0] == '-') {
        (s[0] == '-', s.drop_first())
    } else {
        (false, s)
    }
}

/// Whether `s` reads as an `i32`: an optional sign, then decimal digits whose value fits.
pub open spec fn is_i32_text(s: Seq<char>) -> bool {
    let (neg, d) = unsigned_part(s);
    d.len() > 0 && all_digits(d) && if neg {
        dec_value(d) <= 2147483648
    } else {
        dec_value(d) <= 2147483647
    }
}

/// The end of the run of digits of `s` that starts at `i`.
pub open spec fn digits_end(s: Seq<char>, i: int) -> int
    decreases s.len() - i,
{
    if 0 <= i < s.len() && '0' <= s[i] && s[i] <= '9' {
        digits_end(s, i + 1)
    } else {
        i
    }
}

/// `c` in lower case, for ASCII letters.
pub open spec fn ascii_lower(c: char) -> char {
    if 'A' <= c && c <= 'Z' {
        ((c as u8) + 32) as char
    } else {
        c
    }
}

pub open spec fn lower_text(s: Seq<char>) -> Seq<char> {
    s.map_values(|c: char| ascii_lower(c))
}

/// Whether `t` is a decimal number: digits with at most one `.` and at least one digit, then
/// optionally `e` or `E`, an optional sign and at least one digit.
pub open spec fn is_decimal_number(t: Seq<char>) -> bool {
    let a = digits_end(t, 0);
    let dot = a < t.len() && t[a] == '.';
    let b = if dot {
        digits_end(t, a + 1)
    } else {
        a
    };
    let mantissa_digits = if dot {
        a + (b - a - 1)
    } else {
        a
    };
    let c = if b < t.len() && (t[b] == 'e' || t[b] == 'E') {
        if b + 1 < t.len() && (t[b + 1] == '+' || t[b + 1] == '-') {
            b + 2
        } else {
            b + 1
        }
    } else {
        b
    };
    mantissa_digits >= 1 && (b == t.len() || (c > b && digits_end(t, c) > c && digits_end(t, c)
        == t.len()))
}

/// Whether `s` reads as an `f64`: an optional sign, then `inf`, `infinity` or `nan` in any
/// case, or a decimal number.
pub open spec fn is_f64_text(s: Seq<char>) -> bool {
    let t = unsigned_part(s).1;
    lower_text(t) == "inf"@ || lower_text(t) == "infinity"@ || lower_text(t) == "nan"@
        || is_decimal_number(t)
}

fn digits_end_exec(s: &Vec<char>, i: usize) -> (r: usize)
    requires
        i <= s@.len(),
    ensures
        r == digits_end(s@, i as int),
        i <= r <= s@.len(),
{
    let mut j = i;
    while j < s.len() && '0' <= s[j] && s[j] <= '9'
        invariant
            i <= j <= s@.len(),
            digits_end(s@, j as int) == digits_end(s@, i as int),
        decreases s@.len() - j,
    {
        j += 1;
    }
    j
}

fn unsigned_start(s: &Vec<char>) -> (r: (bool, usize))
    ensures
        r.1 <= s@.len(),
        unsigned_part(s@) == (r.0, s@.subrange(r.1 as int, s@.len() as int)),
{
    if s.len() > 0 && (s[0] == '+' || s[0] == '-') {
        assert(s@.drop_first() == s@.subrange(1, s@.len() as int));
        (s[0] == '-', 1)
    } else {
        assert(s@ == s@.subrange(0, s@.len() as int));
        (false, 0)
    }
}

/// Whether `s` reads as an `i32` (see `is_i32_text`).
pub fn parses_as_i32(s: &Vec<char>) -> (r: bool)
    ensures
        r == is_i32_text(s@),
{
    let (neg, k) = unsigned_start(s);
    let mut d: Vec<char> = Vec::new();
    let mut i = k;
    while i < s.len()
        invariant
            k <= i <= s@.len(),
            d@ == s@.subrange(k as int, i as int),
        decreases s@.len() - i,
    {
        d.push(s[i]);
        assert(s@.subrange(k as int, i + 1) == s@.subrange(k as int, i as int).push(s@[i as int]));
        i += 1;
    }
    match parse_usize(&d) {
        Some(v) => if neg {
            v <= 2147483648
        } else {
            v <= 2147483647
        },
        None => false,
    }
}

fn lower_equals(s: &Vec<char>, from: usize, word: &str) -> (r: bool)
    requires
        from <= s@.len(),
        word.is_ascii(),
    ensures
        r == (lower_text(s@.subrange(from as int, s@.len() as int)) == word@),
{
    let w = crate::text::chars_of(word);
    let n = s.len() - from;
    if n != w.len() {
        assert(lower_text(s@.subrange(from as int, s@.len() as int)).len() != w@.len());
        return false;
    }
    let mut i: usize = 0;
    while i < n
        invariant
            from <= s@.len(),
            from + n <= usize::MAX,
            n == s@.len() - from,
            n == w@.len(),
            w@ == word@,
            i <= n,
            forall|j: int| 0 <= j < i ==> ascii_lower(#[trigger] s@[from + j]) == w@[j],
        decreases n - i,
    {
        let c = s[from + i];
        let lc = if 'A' <= c && c <= 'Z' {
            ((c as u8) + 32) as char
        } else {
            c
        };
        assert(lc == ascii_lower(c));
        if lc != w[i] {
            assert(lower_text(s@.subrange(from as int, s@.len() as int))[i as int] != w@[i as int]);
            return false;
        }
        i += 1;
    }
    assert forall|j: int| 0 <= j < n implies lower_text(s@.subrange(from as int, s@.len() as int))[j] == w@[j] by {
        assert(s@.subrange(from as int, s@.len() as int)[j] == s@[from + j]);
    }
    assert(lower_text(s@.subrange(from as int, s@.len() as int)) =~= w@);
    true
}

/// Whether `s` reads as an `f64` (see `is_f64_text`).
pub fn parses_as_f64(s: &Vec<char>) -> (r: bool)
    ensures
        r == is_f64_text(s@),
{
    let (_neg, k) = unsigned_start(s);
    proof {
        reveal_strlit("inf");
        reveal_strlit("infinity");
        reveal_strlit("nan");
    }
    if lower_equals(s, k, "inf") || lower_equals(s, k, "infinity") || lower_equals(s, k, "nan") {
        return true;
    }
    let ghost t = s@.subrange(k as int, s@.len() as int);
    let mut t_vec: Vec<char> = Vec::new();
    let mut i = k;
    while i < s.len()
        invariant
            k <= i <= s@.len(),
            t_vec@ == s@.subrange(k as int, i as int),
        decreases s@.len() - i,
    {
        t_vec.push(s[i]);
        assert(s@.subrange(k as int, i + 1) == s@.subrange(k as int, i as int).push(s@[i as int]));
        i += 1;
    }
    let t = t_vec;
    let len = t.len();
    let a = digits_end_exec(&t, 0);
    let dot = a < len && t[a] == '.';
    let b = if dot {
        digits_end_exec(&t, a + 1)
    } else {
        a
    };
    let mantissa_digits = if dot {
        a + (b - a - 1)
    } else {
        a
    };
    if mantissa_digits < 1 {
        return false;
    }
    if b == len {
        return true;
    }
    if !(t[b] == 'e' || t[b] == 'E') {
        return false;
    }
    let c = if b + 1 < len && (t[b + 1] == '+' || t[b + 1] == '-') {
        b + 2
    } else {
        b + 1
    };
    let d = digits_end_exec(&t, c);
    d > c && d == len
}

} // verus!

verus! {

/// Whether `s` reads as an `i64`: an optional sign, then decimal digits whose value fits.
pub open spec fn is_i64_text(s: Seq<char>) -> bool {
    let (neg, d) = unsigned_part(s);
    d.len() > 0 && all_digits(d) && if neg {
        dec_value(d) <= 9223372036854775808
    } else {
        dec_value(d) <= 9223372036854775807
    }
}

/// The `i64` that `s` reads as, or 0 when it reads as none.
pub open spec fn i64_or_zero(s: Seq<char>) -> int {
    if is_i64_text(s) {
        let (neg, d) = unsigned_part(s);
        if neg {
            -(dec_value(d) as int)
        } else {
            dec_value(d) as int
        }
    } else {
        0
    }
}

proof fn lemma_dec_value_grows(s: Seq<char>, k: int)
    requires
        0 <= k <= s.len(),
        all_digits(s),
    ensures
        dec_value(s.subrange(0, k)) <= dec_value(s),
    decreases s.len() - k,
{
    if k < s.len() {
        lemma_dec_value_grows(s, k + 1);
        assert(s.subrange(0, k + 1).drop_last() == s.subrange(0, k));
        assert('0' <= s[k] && s[k] <= '9');
    } else {
        assert(s.subrange(0, k) == s);
    }
}

/// Reads `s` as an `i64`, or gives 0 (see `i64_or_zero`).
pub fn parse_i64_or_zero(s: &Vec<char>) -> (r: i64)
    ensures
        r as int == i64_or_zero(s@),
{
    let (neg, k) = unsigned_start(s);
    let ghost d = s@.subrange(k as int, s@.len() as int);
    if k >= s.len() {
        return 0;
    }
    let limit: u64 = if neg {
        9223372036854775808u64
    } else {
        9223372036854775807u64
    };
    let mut v: u64 = 0;
    let mut i = k;
    while i < s.len()
        invariant
            k <= i <= s@.len(),
            d == s@.subrange(k as int, s@.len() as int),
            unsigned_part(s@) == (neg, d),
            limit == if neg { 9223372036854775808u64 } else { 9223372036854775807u64 },
            all_digits(d.subrange(0, i - k)),
            v == dec_value(d.subrange(0, i - k)),
            v <= limit,
        decreases s@.len() - i,
    {
        let c = s[i];
        assert(d.subrange(0, i + 1 - k).drop_last() == d.subrange(0, i - k));
        assert(d[i - k] == c);
        if !('0' <= c && c <= '9') {
            assert(!all_digits(d)) by {
                assert(!('0' <= d[i - k] && d[i - k] <= '9'));
            }
            return 0;
        }
        let dg = (c as u32 - '0' as u32) as u64;
        if v > (limit - dg) / 10 {
            proof {
                if all_digits(d) {
                    lemma_dec_value_grows(d, i + 1 - k);
                }
            }
            return 0;
        }
        v = v * 10 + dg;
        i += 1;
    }
    assert(d.subrange(0, d.len() as int) == d);
    if neg {
        if v == 9223372036854775808u64 {
            i64::MIN
        } else {
            -(v as i64)
        }
    } else {
        v as i64
    }
}

} // verus!
