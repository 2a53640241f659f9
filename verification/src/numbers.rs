//! Integers read from and written as text, the way `str::parse`,
//! `from_str_radix` and `{}` formatting do it for the primitive integers.

use vstd::prelude::*;

verus! {

/// The value of the digit `c` in base `radix` (at most 36), as
/// `char::to_digit` gives it.
pub open spec fn digit_value(c: char, radix: int) -> Option<int> {
    let v = if '0' <= c && c <= '9' {
        c as int - '0' as int
    } else if 'a' <= c && c <= 'z' {
        c as int - 'a' as int + 10
    } else if 'A' <= c && c <= 'Z' {
        c as int - 'A' as int + 10
    } else {
        36
    };
    if v < radix {
        Some(v)
    } else {
        None
    }
}

/// The value of a run of digits in base `radix`; `Some(0)` for no digits.
pub open spec fn digits_value(s: Seq<char>, radix: int) -> Option<int>
    decreases s.len(),
{
    if s.len() == 0 {
        Some(0)
    } else {
        match digits_value(s.drop_last(), radix) {
            Some(v) => match digit_value(s.last(), radix) {
                Some(d) => Some(v * radix + d),
                None => None,
            },
            None => None,
        }
    }
}

/// The value of `s` read as an integer in base `radix`: an optional `+`
/// (or `-` when `signed`) and at least one digit, nothing else.
pub open spec fn integer_text_value(s: Seq<char>, radix: int, signed: bool) -> Option<int> {
    if s.len() == 0 {
        None
    } else if (s[0] == '+' || s[0] == '-') && s.len() == 1 {
        None
    } else if s[0] == '+' {
        digits_value(s.drop_first(), radix)
    } else if s[0] == '-' && signed {
        match digits_value(s.drop_first(), radix) {
            Some(v) => Some(-v),
            None => None,
        }
    } else {
        digits_value(s, radix)
    }
}

/// What reading `s` as an integer type of range `min..=max` gives: its
/// value when it is well formed and in range, else `None`.
pub open spec fn parse_integer_spec(s: Seq<char>, radix: int, signed: bool, min: int, max: int) -> Option<int> {
    match integer_text_value(s, radix, signed) {
        Some(v) => if min <= v && v <= max {
            Some(v)
        } else {
            None
        },
        None => None,
    }
}

/// `i32` in base ten, as `str::parse::<i32>` reads it.
pub open spec fn i32_text(s: Seq<char>) -> Option<int> {
    parse_integer_spec(s, 10, true, i32::MIN as int, i32::MAX as int)
}

/// `i64` in base ten, as `str::parse::<i64>` reads it.
pub open spec fn i64_text(s: Seq<char>) -> Option<int> {
    parse_integer_spec(s, 10, true, i64::MIN as int, i64::MAX as int)
}

/// `u8` in base ten, as `str::parse::<u8>` reads it.
pub open spec fn u8_text(s: Seq<char>) -> Option<int> {
    parse_integer_spec(s, 10, false, 0, u8::MAX as int)
}

/// `u32` in base ten, as `str::parse::<u32>` reads it.
pub open spec fn u32_text(s: Seq<char>) -> Option<int> {
    parse_integer_spec(s, 10, false, 0, u32::MAX as int)
}

/// `u64` in base ten, as `str::parse::<u64>` reads it.
pub open spec fn u64_text(s: Seq<char>) -> Option<int> {
    parse_integer_spec(s, 10, false, 0, u64::MAX as int)
}

/// `u8` in base sixteen, as `u8::from_str_radix(s, 16)` reads it.
pub open spec fn hex_u8_text(s: Seq<char>) -> Option<int> {
    parse_integer_spec(s, 16, false, 0, u8::MAX as int)
}

/// A digit that is not one makes a run of digits invalid.
proof fn lemma_bad_digit(s: Seq<char>, radix: int, i: int)
    requires
        0 <= i < s.len(),
        digit_value(s[i], radix) is None,
    ensures
        digits_value(s, radix) is None,
    decreases s.len(),
{
    if i < s.len() - 1 {
        lemma_bad_digit(s.drop_last(), radix, i);
    }
}

/// The value of a run of digits is at least that of any of its prefixes.
proof fn lemma_prefix_value(s: Seq<char>, radix: int, k: int)
    requires
        0 <= k <= s.len(),
        radix >= 1,
        digits_value(s, radix) is Some,
    ensures
        digits_value(s.take(k), radix) is Some,
        0 <= digits_value(s.take(k), radix).unwrap() <= digits_value(s, radix).unwrap(),
    decreases s.len(),
{
    if s.len() > 0 {
        let v = digits_value(s.drop_last(), radix).unwrap();
        if k == s.len() {
            assert(s.take(k) =~= s);
            lemma_prefix_value(s.drop_last(), radix, k - 1);
        } else {
            lemma_prefix_value(s.drop_last(), radix, k);
            assert(s.drop_last().take(k) =~= s.take(k));
        }
        lemma_prefix_value(s.drop_last(), radix, s.len() - 1);
        assert(s.drop_last().take(s.len() - 1) =~= s.drop_last());
        let d = digit_value(s.last(), radix).unwrap();
        assert(v * radix + d >= v) by (nonlinear_arith)
            requires
                v >= 0,
                radix >= 1,
                d >= 0,
        ;
    } else {
        assert(s.take(k) =~= s);
    }
}

/// The value of the digit `c` in base `radix`.
fn digit_of(c: char, radix: u32) -> (res: Option<u32>)
    requires
        radix <= 36,
    ensures
        match res {
            Some(d) => digit_value(c, radix as int) == Some(d as int),
            None => digit_value(c, radix as int) is None,
        },
{
    let v: u32 = if '0' <= c && c <= '9' {
        c as u32 - 48
    } else if 'a' <= c && c <= 'z' {
        c as u32 - 87
    } else if 'A' <= c && c <= 'Z' {
        c as u32 - 55
    } else {
        36
    };
    if v < radix {
        Some(v)
    } else {
        None
    }
}

/// Reads `s` as an integer in base `radix` of the range `min..=max`, as
/// the `FromStr` and `from_str_radix` of the primitive integers do.
pub fn parse_integer(s: &Vec<char>, radix: u32, signed: bool, min: i128, max: i128) -> (res: Option<i128>)
    requires
        2 <= radix <= 36,
        -0x1_0000_0000_0000_0000 <= min,
        max <= 0x1_0000_0000_0000_0000,
    ensures
        match res {
            Some(v) => parse_integer_spec(s@, radix as int, signed, min as int, max as int) == Some(v as int),
            None => parse_integer_spec(s@, radix as int, signed, min as int, max as int) is None,
        },
{
    let n = s.len();
    if n == 0 {
        return None;
    }
    if (s[0] == '+' || s[0] == '-') && n == 1 {
        return None;
    }
    let negative = s[0] == '-' && signed;
    let start: usize = if s[0] == '+' || negative { 1 } else { 0 };
    let ghost digits = s@.subrange(start as int, n as int);
    assert(start == 1 ==> digits =~= s@.drop_first());
    assert(start == 0 ==> digits =~= s@);
    let mut acc: u128 = 0;
    let mut i = start;
    while i < n
        invariant
            start <= i <= n == s.len(),
            2 <= radix <= 36,
            digits == s@.subrange(start as int, n as int),
            -0x1_0000_0000_0000_0000 <= min,
            max <= 0x1_0000_0000_0000_0000,
            negative ==> integer_text_value(s@, radix as int, signed) == match digits_value(
                digits,
                radix as int,
            ) {
                Some(v) => Some(-v),
                None => None,
            },
            !negative ==> integer_text_value(s@, radix as int, signed) == digits_value(
                digits,
                radix as int,
            ),
            digits_value(s@.subrange(start as int, i as int), radix as int) == Some(acc as int),
            acc <= 0x1_0000_0000_0000_0000,
        decreases n - i,
    {
        let ghost pre = s@.subrange(start as int, i + 1);
        assert(pre.drop_last() =~= s@.subrange(start as int, i as int));
        assert(digits.take(i + 1 - start) =~= pre);
        match digit_of(s[i], radix) {
            Some(d) => {
                assert(acc * radix + d <= 0x1_0000_0000_0000_0000 * 36 + 36) by (nonlinear_arith)
                    requires
                        acc <= 0x1_0000_0000_0000_0000,
                        radix <= 36,
                        d < 36,
                ;
                acc = acc * (radix as u128) + (d as u128);
                if acc > 0x1_0000_0000_0000_0000 {
                    proof {
                        if digits_value(digits, radix as int) is Some {
                            lemma_prefix_value(digits, radix as int, i + 1 - start);
                        }
                    }
                    return None;
                }
            },
            None => {
                proof {
                    lemma_bad_digit(digits, radix as int, i - start);
                }
                return None;
            },
        }
        i = i + 1;
    }
    assert(s@.subrange(start as int, n as int) =~= digits);
    let value: i128 = if negative { -(acc as i128) } else { acc as i128 };
    if min <= value && value <= max {
        Some(value)
    } else {
        None
    }
}

/// Reads an `i32` in base ten.
pub fn parse_i32(s: &Vec<char>) -> (res: Option<i32>)
    ensures
        match res {
            Some(v) => i32_text(s@) == Some(v as int),
            None => i32_text(s@) is None,
        },
{
    match parse_integer(s, 10, true, i32::MIN as i128, i32::MAX as i128) {
        Some(v) => Some(v as i32),
        None => None,
    }
}

/// Reads an `i64` in base ten.
pub fn parse_i64(s: &Vec<char>) -> (res: Option<i64>)
    ensures
        match res {
            Some(v) => i64_text(s@) == Some(v as int),
            None => i64_text(s@) is None,
        },
{
    match parse_integer(s, 10, true, i64::MIN as i128, i64::MAX as i128) {
        Some(v) => Some(v as i64),
        None => None,
    }
}

/// Reads a `u8` in base ten.
pub fn parse_u8(s: &Vec<char>) -> (res: Option<u8>)
    ensures
        match res {
            Some(v) => u8_text(s@) == Some(v as int),
            None => u8_text(s@) is None,
        },
{
    match parse_integer(s, 10, false, 0, u8::MAX as i128) {
        Some(v) => Some(v as u8),
        None => None,
    }
}

/// Reads a `u32` in base ten.
pub fn parse_u32(s: &Vec<char>) -> (res: Option<u32>)
    ensures
        match res {
            Some(v) => u32_text(s@) == Some(v as int),
            None => u32_text(s@) is None,
        },
{
    match parse_integer(s, 10, false, 0, u32::MAX as i128) {
        Some(v) => Some(v as u32),
        None => None,
    }
}

/// Reads a `u64` in base ten.
pub fn parse_u64(s: &Vec<char>) -> (res: Option<u64>)
    ensures
        match res {
            Some(v) => u64_text(s@) == Some(v as int),
            None => u64_text(s@) is None,
        },
{
    match parse_integer(s, 10, false, 0, u64::MAX as i128) {
        Some(v) => Some(v as u64),
        None => None,
    }
}

/// Reads a `u8` in base sixteen.
pub fn parse_hex_u8(s: &Vec<char>) -> (res: Option<u8>)
    ensures
        match res {
            Some(v) => hex_u8_text(s@) == Some(v as int),
            None => hex_u8_text(s@) is None,
        },
{
    match parse_integer(s, 16, false, 0, u8::MAX as i128) {
        Some(v) => Some(v as u8),
        None => None,
    }
}

/// The decimal digits of `n`, most significant first, without leading
/// zeros (`{}` of an unsigned integer).
pub open spec fn decimal_text(n: nat) -> Seq<char>
    decreases n,
{
    if n < 10 {
        seq![(n + 48) as char]
    } else {
        decimal_text(n / 10).push(((n % 10) + 48) as char)
    }
}

/// Writes `n` in decimal.
pub fn decimal_chars(n: u64) -> (res: Vec<char>)
    ensures
        res@ == decimal_text(n as nat),
    decreases n,
{
    if n < 10 {
        let v: Vec<char> = vec![((n as u8) + 48) as char];
        assert(v@ =~= decimal_text(n as nat));
        v
    } else {
        let mut v = decimal_chars(n / 10);
        v.push((((n % 10) as u8) + 48) as char);
        v
    }
}

} // verus!

verus! {

/// The decimal text of a number reads back as that number, and has no
/// leading zero unless the number is zero.
pub proof fn lemma_decimal_round_trip(n: nat)
    ensures
        digits_value(decimal_text(n), 10) == Some(n as int),
        decimal_text(n).len() > 0,
        n > 0 ==> decimal_text(n)[0] != '0',
    decreases n,
{
    if n >= 10 {
        lemma_decimal_round_trip(n / 10);
        let t = decimal_text(n);
        assert(t.drop_last() =~= decimal_text(n / 10));
        assert(t[0] == decimal_text(n / 10)[0]);
        let d = ((n % 10) + 48) as char;
        assert(t.last() == d);
        assert(digit_value(d, 10) == Some((n % 10) as int));
        assert((n / 10) as int * 10 + (n % 10) as int == n as int);
        assert(digits_value(t.drop_last(), 10) == Some((n / 10) as int));
        assert(digits_value(t, 10) == Some(n as int));
    } else {
        let t = decimal_text(n);
        assert(t.drop_last() =~= Seq::<char>::empty());
        assert(digit_value(t.last(), 10) == Some(n as int));
        assert(digits_value(t.drop_last(), 10) == Some(0int));
        assert(digits_value(t, 10) == Some(n as int));
    }
}

} // verus!
