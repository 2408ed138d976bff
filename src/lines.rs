//! Source text to code lines: splitting, comment removal and trimming.
use vstd::prelude::*;
use vstd::string::*;
use crate::text::{chars_of, slice_chars, string_of};

verus! {

/// The texts of a sequence of strings.
pub open spec fn texts(v: Seq<String>) -> Seq<Seq<char>> {
    v.map_values(|l: String| l@)
}

/// Whether `c` is white space, as Unicode's `White_Space` property has it.
pub open spec fn is_space(c: char) -> bool {
    let u = c as int;
    (9 <= u <= 13) || u == 0x20 || u == 0x85 || u == 0xA0 || u == 0x1680 || (0x2000 <= u
        <= 0x200A) || u == 0x2028 || u == 0x2029 || u == 0x202F || u == 0x205F || u == 0x3000
}

/// Whether `c` is white space.
pub fn space(c: char) -> (r: bool)
    ensures
        r == is_space(c),
{
    let u = c as u32;
    (9 <= u && u <= 13) || u == 0x20 || u == 0x85 || u == 0xA0 || u == 0x1680 || (0x2000 <= u
        && u <= 0x200A) || u == 0x2028 || u == 0x2029 || u == 0x202F || u == 0x205F || u == 0x3000
}

/// The first position at or after `i` that holds no white space, or the length.
pub open spec fn lead_end(s: Seq<char>, i: int) -> int
    decreases s.len() - i,
{
    if i >= s.len() {
        s.len() as int
    } else if !is_space(s[i]) {
        i
    } else {
        lead_end(s, i + 1)
    }
}

/// The start of the run of white space that ends at `j`.
pub open spec fn trail_start(s: Seq<char>, j: int) -> int
    decreases j,
{
    if j <= 0 {
        0
    } else if !is_space(s[j - 1]) {
        j
    } else {
        trail_start(s, j - 1)
    }
}

/// The first position at or after `i` that holds white space, or the length.
pub open spec fn space_from(s: Seq<char>, i: int) -> int
    decreases s.len() - i,
{
    if i >= s.len() {
        s.len() as int
    } else if is_space(s[i]) {
        i
    } else {
        space_from(s, i + 1)
    }
}

/// The token number `n` of `s` from position `i` on, tokens being the runs
/// of characters between white space; `None` when there are fewer tokens.
pub open spec fn token_from(s: Seq<char>, i: int, n: nat) -> Option<Seq<char>>
    decreases n,
{
    let a = lead_end(s, i);
    if a >= s.len() {
        None
    } else if n == 0 {
        Some(s.subrange(a, space_from(s, a)))
    } else {
        token_from(s, space_from(s, a), (n - 1) as nat)
    }
}

/// The token number `n` of `s`, tokens being separated by white space.
pub open spec fn token(s: Seq<char>, n: nat) -> Option<Seq<char>> {
    token_from(s, 0, n)
}

/// `s` without its leading and trailing white space.
pub open spec fn trimmed(s: Seq<char>) -> Seq<char> {
    let a = lead_end(s, 0);
    let b = trail_start(s, s.len() as int);
    if a < b {
        s.subrange(a, b)
    } else {
        Seq::empty()
    }
}

/// The position of the first `//` at or after `i`, or the length.
pub open spec fn comment_at(s: Seq<char>, i: int) -> int
    decreases s.len() - i,
{
    if i + 1 >= s.len() {
        s.len() as int
    } else if s[i] == '/' && s[i + 1] == '/' {
        i
    } else {
        comment_at(s, i + 1)
    }
}

/// The code on line `s`: what precedes the first `//`, trimmed.
pub open spec fn code_part(s: Seq<char>) -> Seq<char> {
    trimmed(s.take(comment_at(s, 0)))
}

/// The code of each line that holds any, in order.
pub open spec fn clean_lines(lines: Seq<Seq<char>>) -> Seq<Seq<char>>
    decreases lines.len(),
{
    if lines.len() == 0 {
        Seq::empty()
    } else {
        let p = clean_lines(lines.drop_last());
        let c = code_part(lines.last());
        if c.len() > 0 {
            p.push(c)
        } else {
            p
        }
    }
}

/// `s` split at each line feed; a text without one is a single line.
pub open spec fn split_lines(s: Seq<char>) -> Seq<Seq<char>>
    decreases s.len(),
{
    if s.len() == 0 {
        seq![Seq::empty()]
    } else {
        let p = split_lines(s.drop_last());
        if s.last() == '\n' {
            p.push(Seq::empty())
        } else {
            p.update(p.len() - 1, p.last().push(s.last()))
        }
    }
}

/// The token number `n` of `v`, tokens being separated by white space.
pub fn token_of(v: &Vec<char>, n: usize) -> (r: Option<Vec<char>>)
    ensures
        match r {
            Some(t) => token(v@, n as nat) == Some(t@),
            None => token(v@, n as nat) is None,
        },
{
    let mut i: usize = 0;
    let mut m: usize = n;
    loop
        invariant
            i <= v@.len(),
            token_from(v@, i as int, m as nat) == token(v@, n as nat),
        decreases m,
    {
        let mut a: usize = i;
        while a < v.len() && space(v[a])
            invariant
                i <= a <= v@.len(),
                lead_end(v@, a as int) == lead_end(v@, i as int),
            decreases v.len() - a,
        {
            a += 1;
        }
        if a >= v.len() {
            return None;
        }
        let mut b: usize = a;
        while b < v.len() && !space(v[b])
            invariant
                a <= b <= v@.len(),
                space_from(v@, b as int) == space_from(v@, a as int),
            decreases v.len() - b,
        {
            b += 1;
        }
        if m == 0 {
            return Some(slice_chars(v, a, b));
        }
        i = b;
        m = m - 1;
    }
}

/// The code on the line `s`.
pub fn code_of_line(s: &str) -> (r: String)
    ensures
        r@ == code_part(s@),
{
    let v = chars_of(s);
    let mut k: usize = 0;
    while k < v.len() && k + 1 < v.len() && !(v[k] == '/' && v[k + 1] == '/')
        invariant
            k <= v@.len(),
            comment_at(v@, k as int) == comment_at(v@, 0),
        decreases v.len() - k,
    {
        k += 1;
    }
    if k >= v.len() || k + 1 >= v.len() {
        k = v.len();
    }
    let t = slice_chars(&v, 0, k);
    assert(t@ =~= s@.take(comment_at(s@, 0)));
    let mut a: usize = 0;
    while a < t.len() && space(t[a])
        invariant
            a <= t@.len(),
            lead_end(t@, a as int) == lead_end(t@, 0),
        decreases t.len() - a,
    {
        a += 1;
    }
    let mut b: usize = t.len();
    while b > 0 && space(t[b - 1])
        invariant
            b <= t@.len(),
            trail_start(t@, b as int) == trail_start(t@, t@.len() as int),
        decreases b,
    {
        b -= 1;
    }
    if a < b {
        string_of(&slice_chars(&t, a, b))
    } else {
        String::new()
    }
}

/// The code lines of `lines`: comments removed, trimmed, empty ones dropped.
pub fn code_lines(lines: &Vec<String>) -> (r: Vec<String>)
    ensures
        texts(r@) == clean_lines(texts(lines@)),
        forall|i: int| 0 <= i < r@.len() ==> (#[trigger] r@[i])@.len() > 0,
{
    let mut r: Vec<String> = Vec::new();
    let mut i: usize = 0;
    while i < lines.len()
        invariant
            i <= lines@.len(),
            texts(r@) == clean_lines(texts(lines@.take(i as int))),
            forall|j: int| 0 <= j < r@.len() ==> (#[trigger] r@[j])@.len() > 0,
        decreases lines.len() - i,
    {
        let c = code_of_line(lines[i].as_str());
        assert(texts(lines@.take(i + 1)).drop_last() =~= texts(lines@.take(i as int)));
        assert(texts(lines@.take(i + 1)).last() == lines@[i as int]@);
        if !c.as_str().is_empty() {
            r.push(c);
            assert(texts(r@) =~= clean_lines(texts(lines@.take(i as int))).push(c@));
        }
        i += 1;
    }
    assert(lines@.take(lines@.len() as int) =~= lines@);
    r
}

/// The lines of `s`, split at each line feed.
pub fn split_at_newlines(s: &str) -> (r: Vec<String>)
    ensures
        texts(r@) == split_lines(s@),
{
    let v = chars_of(s);
    let mut out: Vec<String> = Vec::new();
    let mut cur: Vec<char> = Vec::new();
    let mut i: usize = 0;
    while i < v.len()
        invariant
            i <= v@.len(),
            v@ == s@,
            texts(out@).push(cur@) == split_lines(v@.take(i as int)),
        decreases v.len() - i,
    {
        let c = v[i];
        assert(v@.take(i + 1).drop_last() =~= v@.take(i as int));
        if c == '\n' {
            out.push(string_of(&cur));
            cur = Vec::new();
            assert(texts(out@).push(cur@) =~= split_lines(v@.take(i + 1)));
        } else {
            let ghost before = texts(out@).push(cur@);
            cur.push(c);
            assert(texts(out@).push(cur@) =~= before.update(before.len() - 1, before.last().push(c)));
        }
        i += 1;
    }
    out.push(string_of(&cur));
    assert(v@.take(v@.len() as int) =~= v@);
    out
}

/// The lines joined by line feeds, with none after the last.
pub open spec fn joined(lines: Seq<Seq<char>>) -> Seq<char>
    decreases lines.len(),
{
    if lines.len() == 0 {
        Seq::empty()
    } else if lines.len() == 1 {
        lines[0]
    } else {
        joined(lines.drop_last()) + seq!['\n'] + lines.last()
    }
}

/// The lines joined by line feeds, with none after the last.
pub fn join_lines(lines: &Vec<String>) -> (r: String)
    ensures
        r@ == joined(texts(lines@)),
{
    let mut r = String::new();
    let mut i: usize = 0;
    while i < lines.len()
        invariant
            i <= lines@.len(),
            r@ == joined(texts(lines@.take(i as int))),
        decreases lines.len() - i,
    {
        assert(texts(lines@.take(i + 1)).drop_last() =~= texts(lines@.take(i as int)));
        if i > 0 {
            r.push('\n');
        }
        r.append(lines[i].as_str());
        i += 1;
        assert(texts(lines@.take(i as int)).last() == lines@[i - 1]@);
    }
    assert(lines@.take(lines@.len() as int) =~= lines@);
    r
}

} // verus!
