use vstd::prelude::*;

use crate::text::push_char;

verus! {

/// `s` without all its leading `"`.
pub open spec fn trim_lead_quotes(s: Seq<char>) -> Seq<char>
    decreases s.len(),
{
    if s.len() > 0 && s[0] == '"' {
        trim_lead_quotes(s.drop_first())
    } else {
        s
    }
}

/// `s` without all its trailing `"`.
pub open spec fn trim_trail_quotes(s: Seq<char>) -> Seq<char>
    decreases s.len(),
{
    if s.len() > 0 && s.last() == '"' {
        trim_trail_quotes(s.drop_last())
    } else {
        s
    }
}

/// `s` without the `"` at either end.
pub open spec fn trim_quotes(s: Seq<char>) -> Seq<char> {
    trim_trail_quotes(trim_lead_quotes(s))
}

/// The first `k` characters of `s` without any `"`.
pub open spec fn drop_quotes(s: Seq<char>, k: int) -> Seq<char>
    decreases k,
{
    if k <= 0 {
        Seq::empty()
    } else {
        drop_quotes(s, k - 1) + if s[k - 1] == '"' {
            Seq::empty()
        } else {
            seq![s[k - 1]]
        }
    }
}

/// The first position at or after `p` that holds `c`, or the length.
pub open spec fn find_from(s: Seq<char>, p: int, c: char) -> int
    decreases s.len() - p,
{
    if p < 0 || p >= s.len() {
        s.len() as int
    } else if s[p] == c {
        p
    } else {
        find_from(s, p + 1, c)
    }
}

pub proof fn lemma_find_from(s: Seq<char>, p: int, c: char)
    requires
        0 <= p,
    ensures
        p <= find_from(s, p, c) || p > s.len(),
        find_from(s, p, c) <= s.len(),
        find_from(s, p, c) < s.len() ==> s[find_from(s, p, c)] == c,
    decreases s.len() - p,
{
    if p < s.len() && s[p] != c {
        lemma_find_from(s, p + 1, c);
    }
}

/// A piece of a print's text: plain text, or the name of a variable to print.
pub enum Seg {
    Text(Seq<char>),
    Var(Seq<char>),
}

/// The pieces of `c` from position `p` on: the text up to each `{`, the name up to the next
/// `}`; when a `{` has no `}`, the rest from `p` on is text.
pub open spec fn segments(c: Seq<char>, p: int) -> Seq<Seg>
    decreases c.len() - p,
    via segments_decreases
{
    if p < 0 || p >= c.len() {
        Seq::empty()
    } else {
        let o = find_from(c, p, '{');
        if o < c.len() {
            let pre = if o > p {
                seq![Seg::Text(c.subrange(p, o))]
            } else {
                Seq::empty()
            };
            let cl = find_from(c, o + 1, '}');
            if cl < c.len() {
                pre + seq![Seg::Var(c.subrange(o + 1, cl))] + segments(c, cl + 1)
            } else {
                pre + seq![Seg::Text(c.subrange(p, c.len() as int))]
            }
        } else {
            seq![Seg::Text(c.subrange(p, c.len() as int))]
        }
    }
}

#[via_fn]
proof fn segments_decreases(c: Seq<char>, p: int) {
    if 0 <= p < c.len() {
        lemma_find_from(c, p, '{');
        let o = find_from(c, p, '{');
        lemma_find_from(c, o + 1, '}');
    }
}

pub fn trim_quotes_exec(s: &Vec<char>) -> (r: Vec<char>)
    ensures
        r@ == trim_quotes(s@),
{
    let mut a: usize = 0;
    assert(s@.subrange(0, s@.len() as int) == s@);
    while a < s.len() && s[a] == '"'
        invariant
            a <= s@.len(),
            trim_lead_quotes(s@.subrange(a as int, s@.len() as int)) == trim_lead_quotes(s@),
        decreases s@.len() - a,
    {
        assert(s@.subrange(a as int, s@.len() as int).drop_first() == s@.subrange(a + 1, s@.len() as int));
        a += 1;
    }
    proof {
        lemma_lead_done(s@, a as int);
    }
    assert(s@.subrange(a as int, s@.len() as int).subrange(0, (s@.len() - a) as int) == s@.subrange(a as int, s@.len() as int));
    let mut b: usize = s.len();
    while b > a && s[b - 1] == '"'
        invariant
            a <= b <= s@.len(),
            trim_lead_quotes(s@) == s@.subrange(a as int, s@.len() as int),
            trim_trail_quotes(s@.subrange(a as int, b as int)) == trim_trail_quotes(
                s@.subrange(a as int, s@.len() as int),
            ),
        decreases b - a,
    {
        assert(s@.subrange(a as int, b as int).drop_last() == s@.subrange(a as int, b - 1));
        b -= 1;
    }
    let mut r: Vec<char> = Vec::new();
    let mut i = a;
    while i < b
        invariant
            a <= i <= b <= s@.len(),
            r@ == s@.subrange(a as int, i as int),
        decreases b - i,
    {
        r.push(s[i]);
        assert(s@.subrange(a as int, i + 1) == s@.subrange(a as int, i as int).push(s@[i as int]));
        i += 1;
    }
    r
}

proof fn lemma_lead_done(s: Seq<char>, a: int)
    requires
        0 <= a <= s.len(),
        a == s.len() || s[a] != '"',
    ensures
        trim_lead_quotes(s.subrange(a, s.len() as int)) == s.subrange(a, s.len() as int),
{
}

/// `s` without any `"`.
pub fn escape_string_for_assembly(s: &Vec<char>) -> (r: String)
    ensures
        r@ == drop_quotes(s@, s@.len() as int),
{
    let mut r = String::new();
    let mut i: usize = 0;
    while i < s.len()
        invariant
            i <= s@.len(),
            r@ == drop_quotes(s@, i as int),
        decreases s@.len() - i,
    {
        if s[i] != '"' {
            push_char(&mut r, s[i]);
        } else {
            assert(r@ == r@ + Seq::<char>::empty());
        }
        i += 1;
    }
    r
}

pub fn find_from_exec(s: &Vec<char>, p: usize, c: char) -> (r: usize)
    requires
        p <= s@.len(),
    ensures
        r == find_from(s@, p as int, c),
        p <= r <= s@.len(),
{
    let mut j = p;
    while j < s.len() && s[j] != c
        invariant
            p <= j <= s@.len(),
            find_from(s@, j as int, c) == find_from(s@, p as int, c),
        decreases s@.len() - j,
    {
        j += 1;
    }
    j
}

} // verus!
