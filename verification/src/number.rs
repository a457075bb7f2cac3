//! Numbers in decimal notation.

use crate::text::chars_of;
use vstd::prelude::*;

verus! {

/// The digit `d`, for `d` below ten.
pub open spec fn digit(d: nat) -> char {
    (48 + d) as char
}

/// `n` in decimal notation, without leading zeros.
pub open spec fn decimal(n: nat) -> Seq<char>
    decreases n,
{
    if n < 10 {
        seq![digit(n)]
    } else {
        decimal(n / 10).push(digit(n % 10))
    }
}

/// The value of a decimal digit.
pub open spec fn digit_value(c: char) -> Option<nat> {
    if '0' <= c && c <= '9' {
        Some((c as u32 - 48) as nat)
    } else {
        None
    }
}

/// The value of a run of decimal digits: zero for the empty run, `None` where
/// another character stands in it.
pub open spec fn digits_value(s: Seq<char>) -> Option<nat>
    decreases s.len(),
{
    if s.len() == 0 {
        Some(0)
    } else {
        match (digits_value(s.drop_last()), digit_value(s.last())) {
            (Some(v), Some(d)) => Some(10 * v + d),
            _ => None,
        }
    }
}

/// The number at most `max` that `s` writes: a non-empty run of decimal digits.
pub open spec fn bounded_number(s: Seq<char>, max: nat) -> Option<nat> {
    match digits_value(s) {
        Some(v) => if s.len() > 0 && v <= max {
            Some(v)
        } else {
            None
        },
        None => None,
    }
}

/// The `u16` that `s` writes: decimal digits, with an optional `+` before them.
pub open spec fn parse_u16_spec(s: Seq<char>) -> Option<nat> {
    if s.len() > 0 && s[0] == '+' {
        bounded_number(s.drop_first(), 65535)
    } else {
        bounded_number(s, 65535)
    }
}

/// The `i32` that `s` writes: decimal digits, with an optional sign before them.
pub open spec fn parse_i32_spec(s: Seq<char>) -> Option<int> {
    if s.len() > 0 && s[0] == '-' {
        match bounded_number(s.drop_first(), 2147483648) {
            Some(v) => Some(-(v as int)),
            None => None,
        }
    } else {
        let t = if s.len() > 0 && s[0] == '+' {
            s.drop_first()
        } else {
            s
        };
        match bounded_number(t, 2147483647) {
            Some(v) => Some(v as int),
            None => None,
        }
    }
}

/// The digit `d`.
fn digit_char(d: u64) -> (r: char)
    requires
        d < 10,
    ensures
        r == digit(d as nat),
{
    match d {
        0 => '0',
        1 => '1',
        2 => '2',
        3 => '3',
        4 => '4',
        5 => '5',
        6 => '6',
        7 => '7',
        8 => '8',
        _ => '9',
    }
}

/// `n` in decimal notation.
pub fn decimal_text(n: u64) -> (r: String)
    ensures
        r@ == decimal(n as nat),
    decreases n,
{
    if n < 10 {
        let mut out = String::new();
        out.push(digit_char(n));
        assert(out@ == decimal(n as nat));
        out
    } else {
        let mut out = decimal_text(n / 10);
        out.push(digit_char(n % 10));
        out
    }
}

/// The value of a decimal digit.
fn value_of_digit(c: char) -> (r: Option<u64>)
    ensures
        match r {
            Some(d) => d < 10 && digit_value(c) == Some(d as nat),
            None => digit_value(c) is None,
        },
{
    if '0' <= c && c <= '9' {
        Some((c as u32 - 48) as u64)
    } else {
        None
    }
}

/// Once a character is no digit, or the value is above `max`, so it stays with
/// more characters behind.
proof fn lemma_bounded_number_stays(s: Seq<char>, i: int, max: nat)
    requires
        0 < i <= s.len(),
        bounded_number(s.take(i), max) is None,
    ensures
        bounded_number(s, max) is None,
    decreases s.len() - i,
{
    if i == s.len() {
        assert(s.take(i) == s);
    } else {
        assert(s.take(i + 1).drop_last() == s.take(i));
        lemma_bounded_number_stays(s, i + 1, max);
    }
}

/// The number at most `max` that the characters of `v` from `from` on write.
fn number_from(v: &Vec<char>, from: usize, max: u64) -> (r: Option<u64>)
    requires
        from <= v@.len(),
        max <= 0xffff_ffff,
    ensures
        match r {
            Some(n) => bounded_number(v@.skip(from as int), max as nat) == Some(n as nat),
            None => bounded_number(v@.skip(from as int), max as nat) is None,
        },
{
    let ghost s = v@.skip(from as int);
    if from == v.len() {
        return None;
    }
    let mut value: u64 = 0;
    let mut i = from;
    while i < v.len()
        invariant
            from <= i <= v@.len(),
            s == v@.skip(from as int),
            digits_value(s.take(i - from)) == Some(value as nat),
            value <= max <= 0xffff_ffff,
        decreases v@.len() - i,
    {
        let ghost t = s.take(i - from + 1);
        assert(t.drop_last() == s.take(i - from));
        assert(t.last() == v@[i as int]);
        match value_of_digit(v[i]) {
            Some(d) => {
                value = 10 * value + d;
                assert(digits_value(t) == Some(value as nat));
                if value > max {
                    proof {
                        lemma_bounded_number_stays(s, i - from + 1, max as nat);
                    }
                    return None;
                }
            },
            None => {
                proof {
                    lemma_bounded_number_stays(s, i - from + 1, max as nat);
                }
                return None;
            },
        }
        i = i + 1;
    }
    assert(s.take(i - from) == s);
    Some(value)
}

/// The `u16` that `s` writes.
pub fn parse_u16(s: &str) -> (r: Option<u16>)
    ensures
        match r {
            Some(n) => parse_u16_spec(s@) == Some(n as nat),
            None => parse_u16_spec(s@) is None,
        },
{
    let v = chars_of(s);
    assert(v@.skip(0) == v@);
    let mut from: usize = 0;
    if v.len() > 0 && v[0] == '+' {
        from = 1;
        assert(v@.skip(1) == v@.drop_first());
    }
    match number_from(&v, from, 65535) {
        Some(n) => Some(n as u16),
        None => None,
    }
}

/// The `i32` that `s` writes.
pub fn parse_i32(s: &str) -> (r: Option<i32>)
    ensures
        match r {
            Some(n) => parse_i32_spec(s@) == Some(n as int),
            None => parse_i32_spec(s@) is None,
        },
{
    let v = chars_of(s);
    assert(v@.skip(0) == v@);
    assert(v@.len() > 0 ==> v@.skip(1) == v@.drop_first());
    if v.len() > 0 && v[0] == '-' {
        return match number_from(&v, 1, 2147483648) {
            Some(n) => Some((0 - n as i64) as i32),
            None => None,
        };
    }
    let mut from: usize = 0;
    if v.len() > 0 && v[0] == '+' {
        from = 1;
    }
    match number_from(&v, from, 2147483647) {
        Some(n) => Some(n as i32),
        None => None,
    }
}

/// Decimal notation is a non-empty run of digits that write the number.
pub proof fn lemma_decimal(n: nat)
    ensures
        decimal(n).len() > 0,
        forall|i: int| 0 <= i < decimal(n).len() ==> '0' <= #[trigger] decimal(n)[i] <= '9',
        digits_value(decimal(n)) == Some(n),
    decreases n,
{
    if n < 10 {
        assert(decimal(n).drop_last() == Seq::<char>::empty());
        assert(digits_value(Seq::<char>::empty()) == Some(0nat));
        assert(decimal(n).last() == digit(n));
    } else {
        lemma_decimal(n / 10);
        assert(decimal(n).drop_last() == decimal(n / 10));
        assert(decimal(n).last() == digit(n % 10));
    }
}

/// The decimal notation of a `u16` is read back as that number.
pub proof fn law_decimal_round_trip(n: u16)
    ensures
        parse_u16_spec(decimal(n as nat)) == Some(n as nat),
{
    lemma_decimal(n as nat);
}

/// Decimal notation has one digit after the other, the last one for the ones, and
/// no zero in front.
pub proof fn law_decimal_digits(n: nat, d: nat)
    requires
        d < 10,
    ensures
        decimal(d) == seq![(48 + d) as char],
        n > 0 ==> decimal(10 * n + d) == decimal(n) + decimal(d),
        n > 0 ==> decimal(n)[0] != '0',
    decreases n,
{
    if n > 0 {
        assert((10 * n + d) / 10 == n && (10 * n + d) % 10 == d) by (nonlinear_arith)
            requires
                d < 10,
        ;
        assert(decimal(10 * n + d) =~= decimal(n) + decimal(d));
        if n >= 10 {
            law_decimal_digits(n / 10, n % 10);
            lemma_decimal(n / 10);
            assert(decimal(n)[0] == decimal(n / 10)[0]);
        }
    }
}

/// A number is read from its decimal notation, with or without a sign before it,
/// as far as it fits.
pub proof fn law_parse_i32(n: nat, r: Option<i32>, s: &str)
    requires
        call_ensures(parse_i32, (s,), r),
    ensures
        s@ == decimal(n) || s@ == seq!['+'] + decimal(n) ==> match r {
            Some(v) => v == n,
            None => n > i32::MAX,
        },
        s@ == seq!['-'] + decimal(n) ==> match r {
            Some(v) => v == -n,
            None => n > 2147483648,
        },
{
    lemma_decimal(n);
    assert((seq!['+'] + decimal(n)).drop_first() == decimal(n));
    assert((seq!['-'] + decimal(n)).drop_first() == decimal(n));
    assert('0' <= decimal(n)[0]);
}

/// What is read as a number is made of digits, behind a sign perhaps.
pub proof fn law_only_digits_are_read(s: &str, i: int, signed: Option<i32>, r: Option<u16>)
    requires
        call_ensures(parse_i32, (s,), signed),
        call_ensures(parse_u16, (s,), r),
        s@.len() == 0 || (0 < i < s@.len() && !('0' <= s@[i] <= '9')),
    ensures
        signed is None,
        r is None,
{
    if s@.len() > 0 {
        lemma_no_digits(s@, i);
        lemma_no_digits(s@.drop_first(), i - 1);
    }
}

/// A text with a character that is no digit has no value.
pub proof fn lemma_no_digits(s: Seq<char>, i: int)
    requires
        0 <= i < s.len(),
        !('0' <= s[i] <= '9'),
    ensures
        digits_value(s) is None,
    decreases s.len(),
{
    if i < s.len() - 1 {
        lemma_no_digits(s.drop_last(), i);
    }
}

/// A number of sixteen bits is read from its decimal notation, and a larger one is
/// not.
pub proof fn law_parse_u16(n: nat, r: Option<u16>, s: &str)
    requires
        call_ensures(parse_u16, (s,), r),
        s@ == decimal(n) || s@ == seq!['+'] + decimal(n),
    ensures
        match r {
            Some(v) => v == n,
            None => n > u16::MAX,
        },
{
    lemma_decimal(n);
    assert((seq!['+'] + decimal(n)).drop_first() == decimal(n));
    assert('0' <= decimal(n)[0]);
}

} // verus!
