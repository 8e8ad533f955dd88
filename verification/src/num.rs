//! Decimal text of unsigned integers: parsing and formatting.
use vstd::prelude::*;
use crate::text::{push_char, push_str};

verus! {

/// Whether `c` is an ASCII decimal digit.
pub open spec fn is_digit(c: char) -> bool {
    '0' <= c && c <= '9'
}

/// The value of an ASCII digit.
pub open spec fn digit_value(c: char) -> int {
    (c as int) - ('0' as int)
}

/// Whether every character of `s` is a decimal digit.
pub open spec fn all_digits(s: Seq<char>) -> bool {
    forall|i: int| 0 <= i < s.len() ==> is_digit(#[trigger] s[i])
}

/// The value of a string of decimal digits.
pub open spec fn decimal_value(s: Seq<char>) -> int
    decreases s.len(),
{
    if s.len() == 0 {
        0
    } else {
        decimal_value(s.drop_last()) * 10 + digit_value(s.last())
    }
}

/// The digits of a `u64` after an optional `+` sign.
pub open spec fn unsigned_digits(s: Seq<char>) -> Seq<char> {
    if s.len() > 0 && s[0] == '+' {
        s.skip(1)
    } else {
        s
    }
}

/// What parsing `s` as an unsigned integer no greater than `max` gives:
/// an optional `+`, then at least one decimal digit, with value at most `max`.
pub open spec fn parse_unsigned_spec(s: Seq<char>, max: int) -> Option<int> {
    let d = unsigned_digits(s);
    if d.len() > 0 && all_digits(d) && decimal_value(d) <= max {
        Some(decimal_value(d))
    } else {
        None
    }
}

proof fn lemma_decimal_nonneg(s: Seq<char>)
    requires
        all_digits(s),
    ensures
        decimal_value(s) >= 0,
    decreases s.len(),
{
    if s.len() > 0 {
        lemma_decimal_nonneg(s.drop_last());
    }
}

proof fn lemma_decimal_monotone(s: Seq<char>, i: int)
    requires
        all_digits(s),
        0 <= i <= s.len(),
    ensures
        decimal_value(s.take(i)) <= decimal_value(s),
    decreases s.len() - i,
{
    if i < s.len() {
        lemma_decimal_monotone(s, i + 1);
        assert(s.take(i + 1).drop_last() =~= s.take(i));
        lemma_decimal_nonneg(s.take(i));
        assert(all_digits(s.take(i + 1)));
        lemma_decimal_nonneg(s.take(i + 1));
        assert(decimal_value(s.take(i + 1)) == decimal_value(s.take(i)) * 10 + digit_value(s[i]));
    } else {
        assert(s.take(i) =~= s);
    }
}

/// Parses `cs` as an unsigned integer no greater than `max`, as `u64::from_str`
/// (or the narrower types' `from_str`) would.
pub fn parse_unsigned(cs: &[char], max: u64) -> (r: Option<u64>)
    ensures
        match r {
            Some(v) => parse_unsigned_spec(cs@, max as int) == Some(v as int),
            None => parse_unsigned_spec(cs@, max as int) is None,
        },
{
    let start: usize = if cs.len() > 0 && cs[0] == '+' { 1 } else { 0 };
    let ghost d = unsigned_digits(cs@);
    proof {
        assert(d =~= cs@.skip(start as int));
    }
    if start >= cs.len() {
        return None;
    }
    let mut value: u64 = 0;
    let mut i: usize = start;
    while i < cs.len()
        invariant
            start <= i <= cs.len(),
            d == cs@.skip(start as int),
            d == unsigned_digits(cs@),
            all_digits(d.take(i - start)),
            value as int == decimal_value(d.take(i - start)),
            value <= max,
        decreases cs.len() - i,
    {
        let c = cs[i];
        proof {
            assert(d.take(i + 1 - start).drop_last() =~= d.take(i - start));
            assert(d[i - start] == c);
            assert(d.take(i + 1 - start).last() == c);
            assert(d.take(i + 1 - start).len() == i + 1 - start);
        }
        if !('0' <= c && c <= '9') {
            proof {
                assert(!is_digit(d[i - start]));
                assert(!all_digits(d));
            }
            return None;
        }
        let digit: u64 = (c as u64) - ('0' as u64);
        if digit > max || value > (max - digit) / 10 {
            proof {
                assert(all_digits(d.take(i + 1 - start)));
                assert(decimal_value(d.take(i + 1 - start)) == value * 10 + digit);
                assert(value * 10 + digit > max) by (nonlinear_arith)
                    requires digit > max || value > (max - digit) / 10, value >= 0;
                if all_digits(d) {
                    lemma_decimal_monotone(d, i + 1 - start);
                }
            }
            return None;
        }
        proof {
            assert(value * 10 + digit <= max) by (nonlinear_arith)
                requires value <= (max - digit) / 10, digit <= max;
        }
        value = value * 10 + digit;
        i = i + 1;
        proof {
            assert(all_digits(d.take(i - start)));
        }
    }
    proof {
        assert(d.take(i - start) =~= d);
    }
    Some(value)
}

/// The decimal digits of `n`, most significant first, without leading zeros
/// (`0` for zero).
pub open spec fn decimal_text(n: nat) -> Seq<char>
    decreases n,
{
    if n < 10 {
        seq![('0' as u8 + n) as char]
    } else {
        decimal_text(n / 10).push((('0' as u8) + (n % 10)) as char)
    }
}

/// The decimal text of `n`.
pub fn u64_to_decimal(n: u64) -> (r: String)
    ensures
        r@ == decimal_text(n as nat),
    decreases n,
{
    if n < 10 {
        let mut s = String::new();
        push_char(&mut s, digit_char(n));
        s
    } else {
        let mut s = u64_to_decimal(n / 10);
        push_char(&mut s, digit_char(n % 10));
        s
    }
}

/// The digit for `d < 10`.
fn digit_char(d: u64) -> (c: char)
    requires
        d < 10,
    ensures
        c == (('0' as u8) + d) as char,
{
    match d {
        0 => '0',
        1 => '1',
        2 => '2',
        3 => '3',
        4 => '4',
        5 => '5',
        6 => '6',
        7 => '7',
        8 => '8',
        _ => '9',
    }
}

/// The digit character of `d < 10`.
pub open spec fn digit_of(d: int) -> char {
    (('0' as u8) + d) as char
}

/// The three decimal digits of `f < 1000`, without trailing zeros.
pub open spec fn fraction_digits(f: int) -> Seq<char> {
    if f % 100 == 0 {
        seq![digit_of(f / 100)]
    } else if f % 10 == 0 {
        seq![digit_of(f / 100), digit_of((f / 10) % 10)]
    } else {
        seq![digit_of(f / 100), digit_of((f / 10) % 10), digit_of(f % 10)]
    }
}

/// How a duration of `ms` milliseconds is written for debugging: `0ns`,
/// `<ms>ms` below a second, else seconds with the fraction's trailing zeros
/// dropped (`1.5s`, `30s`).
pub open spec fn duration_text(ms: nat) -> Seq<char> {
    if ms == 0 {
        "0ns"@
    } else if ms < 1000 {
        decimal_text(ms) + "ms"@
    } else if ms % 1000 == 0 {
        decimal_text(ms / 1000) + "s"@
    } else {
        decimal_text(ms / 1000) + seq!['.'] + fraction_digits((ms % 1000) as int) + "s"@
    }
}

/// The debug text of a duration of `ms` milliseconds (see [`duration_text`]).
pub fn duration_debug(ms: u64) -> (r: String)
    ensures
        r@ == duration_text(ms as nat),
{
    if ms == 0 {
        return "0ns".to_owned();
    }
    if ms < 1000 {
        let mut s = u64_to_decimal(ms);
        push_str(&mut s, "ms");
        return s;
    }
    let mut s = u64_to_decimal(ms / 1000);
    let f = ms % 1000;
    if f != 0 {
        push_char(&mut s, '.');
        push_char(&mut s, digit_char(f / 100));
        if f % 100 != 0 {
            push_char(&mut s, digit_char((f / 10) % 10));
            if f % 10 != 0 {
                push_char(&mut s, digit_char(f % 10));
            }
        }
    }
    push_str(&mut s, "s");
    s
}

/// What parsing `s` as an `i64` gives (as `i64::from_str`): an optional sign
/// and at least one decimal digit, within range.
pub open spec fn parse_i64_spec(s: Seq<char>) -> Option<int> {
    if s.len() > 0 && s[0] == '-' {
        let d = s.skip(1);
        if d.len() > 0 && all_digits(d) && decimal_value(d) <= 0x8000_0000_0000_0000 {
            Some(-decimal_value(d))
        } else {
            None
        }
    } else {
        parse_unsigned_spec(s, i64::MAX as int)
    }
}

/// Parses `cs` as an `i64` (see [`parse_i64_spec`]).
pub fn parse_i64(cs: &[char]) -> (r: Option<i64>)
    ensures
        match r {
            Some(v) => parse_i64_spec(cs@) == Some(v as int),
            None => parse_i64_spec(cs@) is None,
        },
{
    if cs.len() > 0 && cs[0] == '-' {
        let rest = crate::split::slice_chars(cs, 1, cs.len());
        assert(rest@ =~= cs@.skip(1));
        if rest.len() > 0 && rest[0] == '+' {
            proof {
                assert(!is_digit(rest@[0]));
                assert(!all_digits(rest@));
            }
            return None;
        }
        proof {
            assert(unsigned_digits(rest@) == rest@);
        }
        match parse_unsigned(rest.as_slice(), 0x8000_0000_0000_0000) {
            Some(v) => {
                if v == 0x8000_0000_0000_0000 {
                    Some(i64::MIN)
                } else {
                    Some(-(v as i64))
                }
            },
            None => None,
        }
    } else {
        match parse_unsigned(cs, i64::MAX as u64) {
            Some(v) => Some(v as i64),
            None => None,
        }
    }
}

} // verus!
