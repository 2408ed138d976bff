//! Character-level scanning shared by both stages.
use vstd::prelude::*;
use vstd::string::*;

verus! {

/// Relies on `String::push`: the character is appended at the end.
pub assume_specification[ String::push ](s: &mut String, ch: char)
    ensures
        final(s)@ == old(s)@.push(ch),
;

/// The characters of `s`, in order.
pub fn chars_of(s: &str) -> (r: Vec<char>)
    ensures
        r@ == s@,
{
    let n = s.unicode_len();
    let mut r: Vec<char> = Vec::new();
    let mut i: usize = 0;
    while i < n
        invariant
            n == s@.len(),
            i <= n,
            r@ == s@.take(i as int),
        decreases n - i,
    {
        let c = s.get_char(i);
        r.push(c);
        i += 1;
        assert(r@ =~= s@.take(i as int));
    }
    assert(r@ =~= s@);
    r
}

/// A string holding the characters of `v`.
pub fn string_of(v: &Vec<char>) -> (r: String)
    ensures
        r@ == v@,
{
    let mut r = String::new();
    let mut i: usize = 0;
    while i < v.len()
        invariant
            i <= v@.len(),
            r@ == v@.take(i as int),
        decreases v.len() - i,
    {
        r.push(v[i]);
        i += 1;
        assert(r@ =~= v@.take(i as int));
    }
    assert(r@ =~= v@);
    r
}


/// Whether two texts hold the same characters.
pub fn same_text(a: &str, b: &str) -> (r: bool)
    ensures
        r == (a@ == b@),
{
    let n = a.unicode_len();
    let m = b.unicode_len();
    if n != m {
        return false;
    }
    let mut i: usize = 0;
    while i < n
        invariant
            n == a@.len(),
            m == b@.len(),
            n == m,
            i <= n,
            a@.take(i as int) == b@.take(i as int),
        decreases n - i,
    {
        if a.get_char(i) != b.get_char(i) {
            assert(a@[i as int] != b@[i as int]);
            return false;
        }
        assert(a@.take(i + 1) =~= a@.take(i as int).push(a@[i as int]));
        assert(b@.take(i + 1) =~= b@.take(i as int).push(b@[i as int]));
        i += 1;
    }
    assert(a@ =~= a@.take(n as int));
    assert(b@ =~= b@.take(n as int));
    true
}

/// Whether `c` separates fields, given the two separators `d1` and `d2`.
pub open spec fn is_sep(c: char, d1: char, d2: char) -> bool {
    c == d1 || c == d2
}

/// The position of the first separator at or after `i`, or the length of `s`
/// when there is none.
pub open spec fn find_from(s: Seq<char>, i: int, d1: char, d2: char) -> int
    decreases s.len() - i,
{
    if i >= s.len() {
        s.len() as int
    } else if is_sep(s[i], d1, d2) {
        i
    } else {
        find_from(s, i + 1, d1, d2)
    }
}

/// What `find_from` returns: the first separator at or after `i`.
pub proof fn lemma_find_from(s: Seq<char>, i: int, d1: char, d2: char)
    requires
        0 <= i <= s.len(),
    ensures
        i <= find_from(s, i, d1, d2) <= s.len(),
        forall|j: int| i <= j < find_from(s, i, d1, d2) ==> !is_sep(#[trigger] s[j], d1, d2),
        find_from(s, i, d1, d2) < s.len() ==> is_sep(s[find_from(s, i, d1, d2)], d1, d2),
    decreases s.len() - i,
{
    if i < s.len() && !is_sep(s[i], d1, d2) {
        lemma_find_from(s, i + 1, d1, d2);
    }
}

/// Whether `s` holds the separator `d`.
pub open spec fn has_char(s: Seq<char>, d: char) -> bool {
    exists|j: int| 0 <= j < s.len() && s[j] == d
}

/// The field number `n` of `s` counted from position `start`, where fields
/// are separated by `d1` or `d2`; `None` when there are not that many fields.
pub open spec fn field_from(s: Seq<char>, start: int, d1: char, d2: char, n: nat) -> Option<
    Seq<char>,
>
    decreases n,
{
    let k = find_from(s, start, d1, d2);
    if n == 0 {
        Some(s.subrange(start, k))
    } else if k >= s.len() {
        None
    } else {
        field_from(s, k + 1, d1, d2, (n - 1) as nat)
    }
}

/// The field number `n` of `s`, as splitting it at each `d1` or `d2` gives it.
pub open spec fn field(s: Seq<char>, d1: char, d2: char, n: nat) -> Option<Seq<char>> {
    field_from(s, 0, d1, d2, n)
}

/// The position of the first `d1` or `d2` at or after `start`, or the length.
pub fn find_sep(s: &Vec<char>, start: usize, d1: char, d2: char) -> (k: usize)
    requires
        start <= s@.len(),
    ensures
        k == find_from(s@, start as int, d1, d2),
        start <= k <= s@.len(),
{
    let mut k = start;
    while k < s.len() && s[k] != d1 && s[k] != d2
        invariant
            start <= k <= s@.len(),
            find_from(s@, k as int, d1, d2) == find_from(s@, start as int, d1, d2),
        decreases s.len() - k,
    {
        k += 1;
    }
    k
}

/// Whether `s` holds `d`.
pub fn contains_char(s: &Vec<char>, d: char) -> (r: bool)
    ensures
        r == has_char(s@, d),
{
    let k = find_sep(s, 0, d, d);
    proof {
        lemma_find_from(s@, 0, d, d);
    }
    k < s.len()
}

/// The characters of `s` from `from` up to, not including, `to`.
pub fn slice_chars(s: &Vec<char>, from: usize, to: usize) -> (r: Vec<char>)
    requires
        from <= to <= s@.len(),
    ensures
        r@ == s@.subrange(from as int, to as int),
{
    let mut v: Vec<char> = Vec::new();
    let mut j: usize = from;
    while j < to
        invariant
            from <= j <= to <= s@.len(),
            v@ == s@.subrange(from as int, j as int),
        decreases to - j,
    {
        v.push(s[j]);
        j += 1;
        assert(v@ =~= s@.subrange(from as int, j as int));
    }
    v
}

/// The field number `n` of `s`, fields being separated by `d1` or `d2`.
pub fn field_of(s: &Vec<char>, d1: char, d2: char, n: usize) -> (r: Option<Vec<char>>)
    ensures
        match r {
            Some(v) => field(s@, d1, d2, n as nat) == Some(v@),
            None => field(s@, d1, d2, n as nat) is None,
        },
{
    let mut start: usize = 0;
    let mut m: usize = n;
    loop
        invariant
            start <= s@.len(),
            field_from(s@, start as int, d1, d2, m as nat) == field(s@, d1, d2, n as nat),
        decreases m,
    {
        let k = find_sep(s, start, d1, d2);
        if m == 0 {
            return Some(slice_chars(s, start, k));
        }
        if k >= s.len() {
            return None;
        }
        start = k + 1;
        m = m - 1;
    }
}

} // verus!
