//! Decimal and binary numerals.
use vstd::prelude::*;
use vstd::arithmetic::power::lemma_pow0;
use vstd::arithmetic::power2::{lemma_pow2_unfold, pow2};

verus! {

/// Whether `c` is one of the ten decimal digits.
pub open spec fn is_digit_char(c: char) -> bool {
    '0' <= c && c <= '9'
}

/// The value of the decimal digit `c`.
pub open spec fn digit_value(c: char) -> nat {
    (c as int - '0' as int) as nat
}

/// The character of the decimal digit `d`, for `d < 10`.
pub open spec fn digit_char(d: nat) -> char {
    (d + '0' as nat) as char
}

/// Whether `s` is a non-empty run of decimal digits.
pub open spec fn is_decimal(s: Seq<char>) -> bool {
    s.len() > 0 && forall|i: int| 0 <= i < s.len() ==> is_digit_char(#[trigger] s[i])
}

/// The value of the digits of `s`, read in base ten.
pub open spec fn decimal_value(s: Seq<char>) -> nat
    decreases s.len(),
{
    if s.len() == 0 {
        0
    } else {
        decimal_value(s.drop_last()) * 10 + digit_value(s.last())
    }
}

/// The decimal numeral of `n`, without leading zeros.
pub open spec fn nat_text(n: nat) -> Seq<char>
    decreases n,
{
    if n < 10 {
        seq![digit_char(n)]
    } else {
        nat_text(n / 10).push(digit_char(n % 10))
    }
}

/// The decimal numeral of `n`, with a leading `-` when it is negative.
pub open spec fn int_text(n: int) -> Seq<char> {
    if n < 0 {
        seq!['-'] + nat_text((-n) as nat)
    } else {
        nat_text(n as nat)
    }
}

/// The low `w` bits of `n`, most significant first, as `'0'` and `'1'`.
pub open spec fn binary(n: nat, w: nat) -> Seq<char>
    decreases w,
{
    if w == 0 {
        Seq::empty()
    } else {
        binary(n / 2, (w - 1) as nat).push(if n % 2 == 1 { '1' } else { '0' })
    }
}

/// The digits of a prefix are worth no more than those of a longer prefix.
pub proof fn lemma_decimal_prefix(s: Seq<char>, i: int, j: int)
    requires
        0 <= i <= j <= s.len(),
    ensures
        decimal_value(s.take(i)) <= decimal_value(s.take(j)),
    decreases j - i,
{
    if i < j {
        lemma_decimal_prefix(s, i, j - 1);
        assert(s.take(j).drop_last() =~= s.take(j - 1));
    }
}

/// `binary` has `w` characters.
pub proof fn lemma_binary_len(n: nat, w: nat)
    ensures
        binary(n, w).len() == w,
    decreases w,
{
    if w > 0 {
        lemma_binary_len(n / 2, (w - 1) as nat);
    }
}

/// Numbers below `2^w` have distinct `w`-bit numerals.
pub proof fn lemma_binary_injective(a: nat, b: nat, w: nat)
    requires
        a < pow2(w),
        b < pow2(w),
        binary(a, w) == binary(b, w),
    ensures
        a == b,
    decreases w,
{
    if w == 0 {
        lemma_pow0(2);
    } else {
        lemma_pow2_unfold(w);
        let sa = binary(a, w);
        let sb = binary(b, w);
        assert(sa.last() == sb.last());
        assert(sa.drop_last() =~= binary(a / 2, (w - 1) as nat));
        assert(sb.drop_last() =~= binary(b / 2, (w - 1) as nat));
        lemma_binary_injective(a / 2, b / 2, (w - 1) as nat);
        assert(a % 2 == b % 2);
    }
}

/// The numeral of a number is not empty.
pub proof fn lemma_nat_text_len(n: nat)
    ensures
        nat_text(n).len() >= 1,
        n >= 10 ==> nat_text(n).len() >= 2,
    decreases n,
{
    if n >= 10 {
        lemma_nat_text_len(n / 10);
    }
}

/// A digit's character is read back as the digit.
pub proof fn lemma_digit_char(d: nat)
    requires
        d < 10,
    ensures
        digit_char(d) as int == d + 48,
        is_digit_char(digit_char(d)),
        digit_value(digit_char(d)) == d,
{
}

/// Distinct numbers have distinct numerals.
pub proof fn lemma_nat_text_injective(a: nat, b: nat)
    requires
        nat_text(a) == nat_text(b),
    ensures
        a == b,
    decreases a,
{
    lemma_nat_text_len(a);
    lemma_nat_text_len(b);
    if a < 10 && b < 10 {
        assert(nat_text(a)[0] == digit_char(a));
        assert(nat_text(b)[0] == digit_char(b));
        lemma_digit_char(a);
        lemma_digit_char(b);
        assert(a + 48 == b + 48);
    } else if a >= 10 && b >= 10 {
        let ta = nat_text(a);
        let tb = nat_text(b);
        assert(ta.last() == tb.last());
        lemma_digit_char(a % 10);
        lemma_digit_char(b % 10);
        assert(ta.drop_last() =~= nat_text(a / 10));
        assert(tb.drop_last() =~= nat_text(b / 10));
        lemma_nat_text_injective(a / 10, b / 10);
        assert(a % 10 == b % 10);
        assert(a == (a / 10) * 10 + a % 10);
        assert(b == (b / 10) * 10 + b % 10);
    } else {
        assert(nat_text(a).len() != nat_text(b).len());
    }
}

/// Appends the decimal numeral of `n` to `s`.
pub fn push_decimal(s: &mut String, n: u64)
    ensures
        final(s)@ == old(s)@ + nat_text(n as nat),
    decreases n,
{
    if n >= 10 {
        push_decimal(s, n / 10);
    }
    let d = (n % 10) as u8;
    s.push((d + 48u8) as char);
    assert(final(s)@ =~= old(s)@ + nat_text(n as nat));
}

/// Appends the decimal numeral of `n`, signed, to `s`.
pub fn push_signed(s: &mut String, n: i32)
    ensures
        final(s)@ == old(s)@ + int_text(n as int),
{
    if n < 0 {
        s.push('-');
        let m = (-(n as i64)) as u64;
        push_decimal(s, m);
        assert(final(s)@ =~= old(s)@ + int_text(n as int));
    } else {
        push_decimal(s, n as u64);
    }
}

/// Appends the low `w` bits of `n` to `s`, most significant first.
pub fn push_binary(s: &mut String, n: u64, w: u64)
    ensures
        final(s)@ == old(s)@ + binary(n as nat, w as nat),
    decreases w,
{
    if w > 0 {
        push_binary(s, n / 2, w - 1);
        if n % 2 == 1 {
            s.push('1');
        } else {
            s.push('0');
        }
        assert(final(s)@ =~= old(s)@ + binary(n as nat, w as nat));
    }
}

/// The value of `s` read in base ten, when `s` is a decimal numeral worth at
/// most `limit`; `None` otherwise.
pub fn parse_decimal(s: &Vec<char>, limit: u64) -> (r: Option<u64>)
    requires
        limit < 0x1000_0000_0000_0000,
    ensures
        r == (if is_decimal(s@) && decimal_value(s@) <= limit {
            Some(decimal_value(s@) as u64)
        } else {
            None::<u64>
        }),
{
    if s.len() == 0 {
        return None;
    }
    let mut value: u64 = 0;
    let mut i: usize = 0;
    while i < s.len()
        invariant
            i <= s@.len(),
            forall|j: int| 0 <= j < i ==> is_digit_char(#[trigger] s@[j]),
            value == decimal_value(s@.take(i as int)),
            value <= limit,
            limit < 0x1000_0000_0000_0000,
        decreases s.len() - i,
    {
        let c = s[i];
        if !('0' <= c && c <= '9') {
            return None;
        }
        assert(s@.take(i + 1).drop_last() =~= s@.take(i as int));
        let next = value * 10 + (c as u64 - 48);
        if next > limit {
            proof {
                if is_decimal(s@) {
                    lemma_decimal_prefix(s@, i + 1, s@.len() as int);
                    assert(s@.take(s@.len() as int) =~= s@);
                }
            }
            return None;
        }
        value = next;
        i += 1;
    }
    assert(s@.take(s@.len() as int) =~= s@);
    Some(value)
}

} // verus!
