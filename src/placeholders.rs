use vstd::prelude::*;

use crate::names::NameMap;
use crate::text::{chars_of, string_of};

verus! {

/// Unicode's `White_Space` characters.
pub open spec fn is_blank(c: char) -> bool {
    ('\u{9}' <= c && c <= '\u{d}') || c == ' ' || c == '\u{85}' || c == '\u{a0}' || c
        == '\u{1680}' || ('\u{2000}' <= c && c <= '\u{200a}') || c == '\u{2028}' || c
        == '\u{2029}' || c == '\u{202f}' || c == '\u{205f}' || c == '\u{3000}'
}

pub fn is_blank_char(c: char) -> (r: bool)
    ensures
        r == is_blank(c),
{
    ('\u{9}' <= c && c <= '\u{d}') || c == ' ' || c == '\u{85}' || c == '\u{a0}' || c
        == '\u{1680}' || ('\u{2000}' <= c && c <= '\u{200a}') || c == '\u{2028}' || c
        == '\u{2029}' || c == '\u{202f}' || c == '\u{205f}' || c == '\u{3000}'
}

/// `s` without its leading blanks.
pub open spec fn trim_start(s: Seq<char>) -> Seq<char>
    decreases s.len(),
{
    if s.len() > 0 && is_blank(s[0]) {
        trim_start(s.drop_first())
    } else {
        s
    }
}

/// `s` without its trailing blanks.
pub open spec fn trim_end(s: Seq<char>) -> Seq<char>
    decreases s.len(),
{
    if s.len() > 0 && is_blank(s.last()) {
        trim_end(s.drop_last())
    } else {
        s
    }
}

/// `s` without its leading and trailing blanks.
pub open spec fn trim_blank(s: Seq<char>) -> Seq<char> {
    trim_end(trim_start(s))
}

/// The first position at or after `from` that holds `}`, or the length when there is none.
pub open spec fn close_at(s: Seq<char>, from: int) -> int
    decreases s.len() - from,
{
    if from < 0 || from >= s.len() {
        s.len() as int
    } else if s[from] == '}' {
        from
    } else {
        close_at(s, from + 1)
    }
}

pub proof fn lemma_close_at(s: Seq<char>, from: int)
    requires
        0 <= from,
    ensures
        from <= close_at(s, from) || close_at(s, from) == s.len(),
        close_at(s, from) <= s.len() || from > s.len(),
        close_at(s, from) < s.len() ==> s[close_at(s, from)] == '}',
        forall|j: int| from <= j < close_at(s, from) && j < s.len() ==> s[j] != '}',
    decreases s.len() - from,
{
    if from < s.len() && s[from] != '}' {
        lemma_close_at(s, from + 1);
    }
}

/// Whether position `i` opens a placeholder: a `{` that no `\` comes right before.
pub open spec fn opens_at(s: Seq<char>, i: int) -> bool {
    s[i] == '{' && !(i > 0 && s[i - 1] == '\\')
}

/// The names of the placeholders `{name}` of `s` from position `i` on, blanks trimmed, in order.
pub open spec fn placeholder_names(s: Seq<char>, i: int) -> Seq<Seq<char>>
    decreases s.len() - i,
    via placeholder_names_decreases
{
    if i < 0 || i >= s.len() {
        Seq::empty()
    } else if opens_at(s, i) && close_at(s, i + 1) < s.len() {
        let c = close_at(s, i + 1);
        let name = trim_blank(s.subrange(i + 1, c));
        if name.len() > 0 {
            seq![name] + placeholder_names(s, c + 1)
        } else {
            placeholder_names(s, c + 1)
        }
    } else {
        placeholder_names(s, i + 1)
    }
}

#[via_fn]
proof fn placeholder_names_decreases(s: Seq<char>, i: int) {
    if 0 <= i < s.len() {
        lemma_close_at(s, i + 1);
    }
}

/// The text `s` from position `i` on, each placeholder whose trimmed name `m` binds replaced
/// by its value; other placeholders, `{}` among them, stay as they are.
pub open spec fn inline_text(s: Seq<char>, m: Map<Seq<char>, Seq<char>>, i: int) -> Seq<char>
    decreases s.len() - i,
    via inline_text_decreases
{
    if i < 0 || i >= s.len() {
        Seq::empty()
    } else if s[i] == '{' {
        if i > 0 && s[i - 1] == '\\' {
            seq!['{'] + inline_text(s, m, i + 1)
        } else if close_at(s, i + 1) < s.len() {
            let c = close_at(s, i + 1);
            let ph = s.subrange(i + 1, c);
            let piece = if ph.len() > 0 && m.contains_key(trim_blank(ph)) {
                m[trim_blank(ph)]
            } else {
                seq!['{'] + ph + seq!['}']
            };
            piece + inline_text(s, m, c + 1)
        } else {
            s.subrange(i, s.len() as int)
        }
    } else {
        seq![s[i]] + inline_text(s, m, i + 1)
    }
}

#[via_fn]
proof fn inline_text_decreases(s: Seq<char>, m: Map<Seq<char>, Seq<char>>, i: int) {
    if 0 <= i < s.len() {
        lemma_close_at(s, i + 1);
    }
}

/// `s` without one leading space, if it starts with one.
pub open spec fn strip_space(s: Seq<char>) -> Seq<char> {
    if s.len() > 0 && s[0] == ' ' {
        s.drop_first()
    } else {
        s
    }
}

/// The texts of a map's values.
pub open spec fn text_map(m: Map<Seq<char>, String>) -> Map<Seq<char>, Seq<char>> {
    m.map_values(|v: String| v@)
}

/// A literal after inlining: its placeholders replaced.
pub open spec fn replaced(s: Seq<char>, m: Map<Seq<char>, Seq<char>>) -> Seq<char> {
    inline_text(s, m, 0)
}

/// The first position at or after `from` that holds `}`, or `s.len()`.
pub fn find_close(s: &Vec<char>, from: usize) -> (r: usize)
    requires
        from <= s@.len(),
    ensures
        r == close_at(s@, from as int),
        from <= r <= s@.len(),
{
    proof {
        lemma_close_at(s@, from as int);
    }
    let mut j = from;
    while j < s.len() && s[j] != '}'
        invariant
            from <= j <= s@.len(),
            close_at(s@, j as int) == close_at(s@, from as int),
        decreases s@.len() - j,
    {
        j += 1;
    }
    j
}

/// The bounds of `s[a..b]` without its leading and trailing blanks.
pub fn trim_range(s: &Vec<char>, a: usize, b: usize) -> (r: (usize, usize))
    requires
        a <= b <= s@.len(),
    ensures
        a <= r.0 <= r.1 <= b,
        s@.subrange(r.0 as int, r.1 as int) == trim_blank(s@.subrange(a as int, b as int)),
{
    let mut x = a;
    while x < b && is_blank_char(s[x])
        invariant
            a <= x <= b <= s@.len(),
            trim_start(s@.subrange(a as int, b as int)) == trim_start(
                s@.subrange(x as int, b as int),
            ),
        decreases b - x,
    {
        assert(s@.subrange(x as int, b as int).drop_first() == s@.subrange(x + 1, b as int));
        x += 1;
    }
    let mut y = b;
    while y > x && is_blank_char(s[y - 1])
        invariant
            a <= x <= y <= b <= s@.len(),
            trim_end(s@.subrange(x as int, b as int)) == trim_end(s@.subrange(x as int, y as int)),
        decreases y - x,
    {
        assert(s@.subrange(x as int, y as int).drop_last() == s@.subrange(x as int, y - 1));
        y -= 1;
    }
    (x, y)
}

/// The names of the placeholders of `lit`, in order (see `placeholder_names`).
pub fn placeholders(lit: &String) -> (r: Vec<String>)
    ensures
        r@.map_values(|x: String| x@) == placeholder_names(lit@, 0),
{
    let s = chars_of(lit.as_str());
    let n = s.len();
    let mut out: Vec<String> = Vec::new();
    let mut i: usize = 0;
    while i < n
        invariant
            n == s@.len(),
            s@ == lit@,
            i <= n,
            out@.map_values(|x: String| x@) + placeholder_names(s@, i as int) == placeholder_names(
                s@,
                0,
            ),
        decreases n - i,
    {
        let ghost before = out@;
        if s[i] == '{' && !(i > 0 && s[i - 1] == '\\') {
            let c = find_close(&s, i + 1);
            if c < n {
                let (a, b) = trim_range(&s, i + 1, c);
                if a < b {
                    let name = string_of(s.as_slice(), a, b);
                    out.push(name);
                    assert(out@.map_values(|x: String| x@) == before.map_values(|x: String| x@).push(
                        name@,
                    ));
                }
                i = c + 1;
                continue ;
            }
        }
        i += 1;
    }
    out
}

/// Appends the characters of `t` to `out`.
pub fn extend_chars(out: &mut Vec<char>, t: &Vec<char>)
    ensures
        final(out)@ == old(out)@ + t@,
{
    let mut k: usize = 0;
    while k < t.len()
        invariant
            k <= t@.len(),
            out@ == old(out)@ + t@.subrange(0, k as int),
        decreases t@.len() - k,
    {
        out.push(t[k]);
        assert(t@.subrange(0, k + 1) == t@.subrange(0, k as int).push(t@[k as int]));
        k += 1;
    }
    assert(t@.subrange(0, t@.len() as int) == t@);
}

/// Replaces the placeholders of `literal` that `inline_map` binds.
pub fn replace_placeholders(literal: &str, inline_map: &NameMap<String>) -> (r: String)
    ensures
        r@ == replaced(literal@, text_map(inline_map@)),
{
    let s = chars_of(literal);
    let n = s.len();
    let ghost m = text_map(inline_map@);
    let mut out: Vec<char> = Vec::new();
    let mut i: usize = 0;
    while i < n
        invariant
            n == s@.len(),
            s@ == literal@,
            m == text_map(inline_map@),
            i <= n,
            out@ + inline_text(s@, m, i as int) == inline_text(s@, m, 0),
        decreases n - i,
    {
        let ghost before = out@;
        if s[i] == '{' {
            if i > 0 && s[i - 1] == '\\' {
                out.push('{');
                assert(out@ + inline_text(s@, m, i + 1) == before + inline_text(s@, m, i as int));
                i += 1;
            } else {
                let c = find_close(&s, i + 1);
                if c < n {
                    let mut found = false;
                    if c > i + 1 {
                        let (a, b) = trim_range(&s, i + 1, c);
                        let key = string_of(s.as_slice(), a, b);
                        match inline_map.get(&key) {
                            Some(v) => {
                                let vs = chars_of(v.as_str());
                                extend_chars(&mut out, &vs);
                                found = true;
                            },
                            None => {},
                        }
                    }
                    if !found {
                        out.push('{');
                        let mut k = i + 1;
                        while k < c
                            invariant
                                i + 1 <= k <= c < n,
                                n == s@.len(),
                                out@ == before + seq!['{'] + s@.subrange(i + 1, k as int),
                            decreases c - k,
                        {
                            out.push(s[k]);
                            assert(s@.subrange(i + 1, k + 1) == s@.subrange(i + 1, k as int).push(s@[k as int]));
                            k += 1;
                        }
                        out.push('}');
                    }
                    assert(out@ + inline_text(s@, m, c + 1) == before + inline_text(
                        s@,
                        m,
                        i as int,
                    ));
                    i = c + 1;
                } else {
                    let mut k = i;
                    while k < n
                        invariant
                            i <= k <= n,
                            n == s@.len(),
                            out@ == before + s@.subrange(i as int, k as int),
                        decreases n - k,
                    {
                        out.push(s[k]);
                        assert(s@.subrange(i as int, k + 1) == s@.subrange(i as int, k as int).push(s@[k as int]));
                        k += 1;
                    }
                    assert(inline_text(s@, m, n as int) == Seq::<char>::empty());
                    assert(out@ + inline_text(s@, m, n as int) == before + inline_text(
                        s@,
                        m,
                        i as int,
                    ));
                    i = n;
                }
            }
        } else {
            out.push(s[i]);
            assert(out@ + inline_text(s@, m, i + 1) == before + inline_text(s@, m, i as int));
            i += 1;
        }
    }
    assert(out@ + inline_text(s@, m, n as int) == out@);
    string_of(out.as_slice(), 0, out.len())
}

} // verus!
