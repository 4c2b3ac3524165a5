//! Decimal numerals: reading them the way the integer types' `FromStr` does, and
//! writing them the way `Display` does.

use vstd::prelude::*;
use crate::text::push_char;

verus! {

/// `c` is one of `0`–`9`.
pub open spec fn is_digit(c: char) -> bool {
    '0' <= c && c <= '9'
}

/// The value of a digit character.
pub open spec fn digit_val(c: char) -> int {
    (c as u32) - 48
}

/// Every character of `s` is a digit.
pub open spec fn all_digits(s: Seq<char>) -> bool {
    forall|i: int| 0 <= i < s.len() ==> is_digit(#[trigger] s[i])
}

/// The value of a digit string, most significant digit first.
pub open spec fn digits_value(s: Seq<char>) -> int
    decreases s.len(),
{
    if s.len() == 0 {
        0
    } else {
        digits_value(s.drop_last()) * 10 + digit_val(s.last())
    }
}

/// What an unsigned integer type's `from_str` accepts: an optional `+`, then one or
/// more digits whose value is at most `max`.
pub open spec fn parse_unsigned(s: Seq<char>, max: int) -> Option<int> {
    let d = if s.len() > 0 && s[0] == '+' {
        s.drop_first()
    } else {
        s
    };
    if d.len() > 0 && all_digits(d) && digits_value(d) <= max {
        Some(digits_value(d))
    } else {
        None
    }
}

/// What a signed integer type's `from_str` accepts: an optional `+` or `-`, then one
/// or more digits, the value within `min..=max`.
pub open spec fn parse_signed(s: Seq<char>, min: int, max: int) -> Option<int> {
    if s.len() > 0 && s[0] == '-' {
        let d = s.drop_first();
        if d.len() > 0 && all_digits(d) && -digits_value(d) >= min {
            Some(-digits_value(d))
        } else {
            None
        }
    } else {
        parse_unsigned(s, max)
    }
}

proof fn lemma_digits_nonneg(s: Seq<char>)
    requires
        all_digits(s),
    ensures
        digits_value(s) >= 0,
    decreases s.len(),
{
    if s.len() > 0 {
        assert(all_digits(s.drop_last()));
        lemma_digits_nonneg(s.drop_last());
        assert(is_digit(s[s.len() - 1]));
    }
}

/// A digit-string's value is at least that of any of its prefixes.
proof fn lemma_prefix_value_le(s: Seq<char>, k: int)
    requires
        all_digits(s),
        0 <= k <= s.len(),
    ensures
        digits_value(s.take(k)) <= digits_value(s),
    decreases s.len() - k,
{
    if k < s.len() {
        lemma_prefix_value_le(s, k + 1);
        let t = s.take(k + 1);
        assert(t.drop_last() =~= s.take(k));
        assert(all_digits(s.take(k)));
        lemma_digits_nonneg(s.take(k));
        assert(is_digit(s[k]));
    } else {
        assert(s.take(k) =~= s);
    }
}

/// The value of the digits `v[start..]`, if they are one or more digits with value at
/// most `max`.
fn digits_at_most(v: &Vec<char>, start: usize, max: u128) -> (r: Option<u128>)
    requires
        start <= v@.len(),
    ensures
        ({
            let d = v@.skip(start as int);
            match r {
                Some(x) => d.len() > 0 && all_digits(d) && digits_value(d) <= max
                    && x as int == digits_value(d),
                None => !(d.len() > 0 && all_digits(d) && digits_value(d) <= max),
            }
        }),
{
    let ghost d = v@.skip(start as int);
    if start == v.len() {
        return None;
    }
    let mut acc: u128 = 0;
    let mut i: usize = start;
    assert(d.take(0) =~= Seq::<char>::empty());
    while i < v.len()
        invariant
            start <= i <= v@.len(),
            d == v@.skip(start as int),
            all_digits(d.take(i - start)),
            acc as int == digits_value(d.take(i - start)),
            acc <= max,
        decreases v.len() - i,
    {
        let c = v[i];
        assert(d[i - start] == c);
        if !('0' <= c && c <= '9') {
            assert(!all_digits(d));
            return None;
        }
        let dv: u128 = digit_value_u128(c);
        let ghost prev = d.take(i - start);
        let ghost next = d.take(i - start + 1);
        assert(next.drop_last() =~= prev);
        assert(next.last() == c);
        if dv > max || acc > (max - dv) / 10 {
            proof {
                assert(acc * 10 + dv > max) by (nonlinear_arith)
                    requires
                        dv > max || acc > (max - dv) / 10,
                        dv <= 9,
                        acc >= 0,
                ;
                assert(digits_value(next) == acc * 10 + dv);
                if all_digits(d) {
                    lemma_prefix_value_le(d, i - start + 1);
                }
            }
            return None;
        }
        assert(acc * 10 + dv <= max) by (nonlinear_arith)
            requires
                dv <= max,
                acc <= (max - dv) / 10,
        ;
        acc = acc * 10 + dv;
        i = i + 1;
        assert(all_digits(next));
    }
    assert(d.take(i - start) =~= d);
    Some(acc)
}

/// The value of a digit character, as `u128`.
fn digit_value_u128(c: char) -> (r: u128)
    requires
        is_digit(c),
    ensures
        r as int == digit_val(c),
        r <= 9,
{
    ((c as u32) - 48) as u128
}

/// Read an unsigned decimal numeral the way `u128::from_str` does, bounded by `max`
/// (the target type's maximum).
pub fn parse_unsigned_chars(v: &Vec<char>, max: u128) -> (r: Option<u128>)
    ensures
        match r {
            Some(y) => parse_unsigned(v@, max as int) == Some(y as int),
            None => parse_unsigned(v@, max as int) is None,
        },
{
    let start: usize = if v.len() > 0 && v[0] == '+' {
        1
    } else {
        0
    };
    proof {
        if start == 1 {
            assert(v@.skip(1) =~= v@.drop_first());
        } else {
            assert(v@.skip(0) =~= v@);
        }
    }
    digits_at_most(v, start, max)
}

/// `u16::from_str`.
pub fn parse_u16(s: &str) -> (r: Option<u16>)
    ensures
        match r {
            Some(y) => parse_unsigned(s@, 65535) == Some(y as int),
            None => parse_unsigned(s@, 65535) is None,
        },
{
    let v = crate::text::chars_of(s);
    match parse_unsigned_chars(&v, 65535) {
        Some(x) => Some(x as u16),
        None => None,
    }
}

/// `u32::from_str`.
pub fn parse_u32(s: &str) -> (r: Option<u32>)
    ensures
        match r {
            Some(y) => parse_unsigned(s@, 4294967295) == Some(y as int),
            None => parse_unsigned(s@, 4294967295) is None,
        },
{
    let v = crate::text::chars_of(s);
    match parse_unsigned_chars(&v, 4294967295) {
        Some(x) => Some(x as u32),
        None => None,
    }
}

/// The smallest `i128`, as an integer.
pub open spec fn i128_min() -> int {
    -170141183460469231731687303715884105728
}

/// The largest `i128`, as an integer.
pub open spec fn i128_max() -> int {
    170141183460469231731687303715884105727
}

/// `i128::from_str`.
pub fn parse_i128_chars(v: &Vec<char>) -> (r: Option<i128>)
    ensures
        match r {
            Some(y) => parse_signed(v@, i128_min(), i128_max()) == Some(y as int),
            None => parse_signed(v@, i128_min(), i128_max()) is None,
        },
{
    if v.len() > 0 && v[0] == '-' {
        assert(v@.skip(1) =~= v@.drop_first());
        match digits_at_most(v, 1, 170141183460469231731687303715884105728u128) {
            Some(x) => {
                if x == 170141183460469231731687303715884105728u128 {
                    Some(i128::MIN)
                } else {
                    let y: i128 = x as i128;
                    Some(-y)
                }
            },
            None => None,
        }
    } else {
        match parse_unsigned_chars(v, 170141183460469231731687303715884105727u128) {
            Some(x) => Some(x as i128),
            None => None,
        }
    }
}

// ---- writing numerals ----------------------------------------------------------------

/// The digit character for `d` (`0`–`9`).
pub open spec fn digit_char(d: int) -> char {
    (d + 48) as char
}

/// The decimal numeral of `n`, as `Display` writes it: no sign, no leading zeros.
pub open spec fn decimal(n: nat) -> Seq<char>
    decreases n,
{
    if n < 10 {
        seq![digit_char(n as int)]
    } else {
        decimal(n / 10).push(digit_char((n % 10) as int))
    }
}

fn digit_char_exec(d: u128) -> (c: char)
    requires
        d < 10,
    ensures
        c == digit_char(d as int),
{
    let b: u8 = (d as u8) + 48;
    b as char
}

/// Appends the decimal numeral of `n` to `s`.
pub fn push_decimal(s: &mut String, n: u128)
    ensures
        final(s)@ == old(s)@ + decimal(n as nat),
    decreases n,
{
    if n >= 10 {
        push_decimal(s, n / 10);
    }
    let c = digit_char_exec(n % 10);
    push_char(s, c);
    proof {
        if n >= 10 {
            assert(old(s)@ + decimal(n as nat) =~= old(s)@ + decimal((n / 10) as nat) + seq![c]);
        } else {
            assert(old(s)@ + decimal(n as nat) =~= old(s)@ + seq![c]);
        }
    }
}

/// The decimal numeral of `n`.
pub fn decimal_string(n: u128) -> (s: String)
    ensures
        s@ == decimal(n as nat),
{
    let mut s = String::new();
    push_decimal(&mut s, n);
    assert(s@ =~= decimal(n as nat));
    s
}

} // verus!
