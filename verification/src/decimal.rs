//! Decimal rendering and parsing of integers, as `to_string` and `str::parse`
//! define them for the primitive integer types.
use vstd::prelude::*;

use crate::external::push_char;

verus! {

/// The character of a decimal digit.
pub open spec fn digit_char(d: nat) -> char {
    (d + 48) as char
}

/// Whether `c` is an ASCII decimal digit.
pub open spec fn is_digit(c: char) -> bool {
    48 <= (c as u32) && (c as u32) <= 57
}

/// The digit value of a decimal digit character.
pub open spec fn digit_value(c: char) -> int {
    (c as u32) - 48
}

/// The shortest decimal rendering of a natural number (no sign, no leading zeros).
pub open spec fn nat_decimal(n: nat) -> Seq<char>
    decreases n,
{
    if n < 10 {
        seq![digit_char(n)]
    } else {
        nat_decimal(n / 10).push(digit_char(n % 10))
    }
}

/// The rendering of an integer by `to_string`: a minus sign for negatives, then the digits.
pub open spec fn int_decimal(n: int) -> Seq<char> {
    if n < 0 {
        seq!['-'] + nat_decimal((-n) as nat)
    } else {
        nat_decimal(n as nat)
    }
}

/// Whether every character of `s` is a decimal digit.
pub open spec fn all_digits(s: Seq<char>) -> bool {
    forall|i: int| 0 <= i < s.len() ==> #[trigger] is_digit(s[i])
}

/// The value of a string of decimal digits, most significant first.
pub open spec fn digits_value(s: Seq<char>) -> int
    decreases s.len(),
{
    if s.len() == 0 {
        0
    } else {
        digits_value(s.drop_last()) * 10 + digit_value(s.last())
    }
}

/// The value of a non-empty run of digits, or `None`.
pub open spec fn unsigned_value(s: Seq<char>) -> Option<int> {
    if s.len() > 0 && all_digits(s) {
        Some(digits_value(s))
    } else {
        None
    }
}

/// The value of an optional `+` or `-` sign followed by a non-empty run of digits.
pub open spec fn signed_value(s: Seq<char>) -> Option<int> {
    if s.len() > 0 && s[0] == '-' {
        match unsigned_value(s.drop_first()) {
            Some(m) => Some(-m),
            None => None,
        }
    } else if s.len() > 0 && s[0] == '+' {
        unsigned_value(s.drop_first())
    } else {
        unsigned_value(s)
    }
}

/// What `str::parse::<i64>` gives: the signed value when it is in range.
pub open spec fn parse_i64_spec(s: Seq<char>) -> Option<i64> {
    match signed_value(s) {
        Some(v) => if i64::MIN <= v <= i64::MAX {
            Some(v as i64)
        } else {
            None
        },
        None => None,
    }
}

/// What `str::parse::<i32>` gives: the signed value when it is in range.
pub open spec fn parse_i32_spec(s: Seq<char>) -> Option<i32> {
    match signed_value(s) {
        Some(v) => if i32::MIN <= v <= i32::MAX {
            Some(v as i32)
        } else {
            None
        },
        None => None,
    }
}

proof fn lemma_digits_value_nonneg(s: Seq<char>)
    requires
        all_digits(s),
    ensures
        digits_value(s) >= 0,
    decreases s.len(),
{
    if s.len() > 0 {
        assert(is_digit(s[s.len() - 1]));
        assert(all_digits(s.drop_last())) by {
            assert forall|i: int| 0 <= i < s.drop_last().len() implies #[trigger] is_digit(
                s.drop_last()[i],
            ) by {
                assert(is_digit(s[i]));
            }
        }
        lemma_digits_value_nonneg(s.drop_last());
    }
}

/// Extending a run of digits never makes its value smaller.
proof fn lemma_digits_value_prefix_le(s: Seq<char>, k: int)
    requires
        all_digits(s),
        0 <= k <= s.len(),
    ensures
        digits_value(s.take(k)) <= digits_value(s),
    decreases s.len() - k,
{
    if k < s.len() {
        let t = s.take(k + 1);
        assert(t.drop_last() =~= s.take(k));
        assert(is_digit(s[k]));
        assert(t.last() == s[k]);
        assert(all_digits(s.take(k))) by {
            assert forall|i: int| 0 <= i < s.take(k).len() implies #[trigger] is_digit(
                s.take(k)[i],
            ) by {
                assert(is_digit(s[i]));
            }
        }
        lemma_digits_value_nonneg(s.take(k));
        lemma_digits_value_prefix_le(s, k + 1);
    } else {
        assert(s.take(k) =~= s);
    }
}

fn digit_to_char(d: u64) -> (c: char)
    requires
        d < 10,
    ensures
        c == digit_char(d as nat),
{
    let b: u8 = (d as u8) + 48u8;
    b as char
}

/// Renders a `u64` in decimal, as `u64::to_string` does.
pub fn u64_to_decimal(n: u64) -> (s: String)
    ensures
        s@ == nat_decimal(n as nat),
    decreases n,
{
    if n < 10 {
        let mut s = String::new();
        push_char(&mut s, digit_to_char(n));
        assert(s@ =~= nat_decimal(n as nat));
        s
    } else {
        let mut s = u64_to_decimal(n / 10);
        push_char(&mut s, digit_to_char(n % 10));
        s
    }
}

/// Renders an `i64` in decimal, as `i64::to_string` does.
pub fn i64_to_decimal(n: i64) -> (s: String)
    ensures
        s@ == int_decimal(n as int),
{
    if n < 0 {
        let m: u64 = (0i128 - (n as i128)) as u64;
        let digits = u64_to_decimal(m);
        let mut s = String::new();
        push_char(&mut s, '-');
        s.append(digits.as_str());
        assert(s@ =~= seq!['-'] + nat_decimal((-n) as nat));
        s
    } else {
        u64_to_decimal(n as u64)
    }
}

/// Renders an `i32` in decimal, as `i32::to_string` does.
pub fn i32_to_decimal(n: i32) -> (s: String)
    ensures
        s@ == int_decimal(n as int),
{
    i64_to_decimal(n as i64)
}

/// Parses the digits of `s` from position `start` on, giving up with `None`
/// as soon as a non-digit appears or the value exceeds `limit`.
fn parse_magnitude(s: &str, start: usize, limit: u64) -> (r: Option<u64>)
    requires
        start <= s@.len(),
        limit >= 10,
    ensures
        ({
            let rest = s@.subrange(start as int, s@.len() as int);
            match r {
                Some(v) => unsigned_value(rest) == Some(v as int) && v <= limit,
                None => unsigned_value(rest) is None || unsigned_value(rest).unwrap() > limit,
            }
        }),
{
    let len = s.unicode_len();
    if start >= len {
        return None;
    }
    let ghost rest = s@.subrange(start as int, s@.len() as int);
    let mut acc: u64 = 0;
    let mut i: usize = start;
    while i < len
        invariant
            start <= i <= len,
            len == s@.len(),
            start < len,
            rest == s@.subrange(start as int, s@.len() as int),
            all_digits(rest.take(i - start)),
            acc as int == digits_value(rest.take(i - start)),
            acc <= limit,
            limit >= 10,
        decreases len - i,
    {
        let c = s.get_char(i);
        let cu: u32 = c as u32;
        let ghost k: int = i - start;
        assert(rest[k] == c);
        assert(rest.take(k + 1).drop_last() =~= rest.take(k));
        if cu < 48 || cu > 57 {
            assert(!is_digit(rest[k]));
            return None;
        }
        let d: u64 = (cu - 48) as u64;
        assert(all_digits(rest.take(k + 1))) by {
            assert forall|j: int| 0 <= j < rest.take(k + 1).len() implies #[trigger] is_digit(
                rest.take(k + 1)[j],
            ) by {
                if j < k {
                    assert(rest.take(k + 1)[j] == rest.take(k)[j]);
                }
            }
        }
        if acc > (limit - d) / 10 {
            // the prefix read so far already exceeds the limit
            assert(acc * 10 + d > limit) by (nonlinear_arith)
                requires
                    acc > (limit - d) / 10,
                    d <= 9,
                    limit >= 10,
            ;
            proof {
                if all_digits(rest) {
                    lemma_digits_value_prefix_le(rest, k + 1);
                }
            }
            return None;
        }
        assert(acc * 10 + d <= limit) by (nonlinear_arith)
            requires
                acc <= (limit - d) / 10,
                d <= 9,
        ;
        acc = acc * 10 + d;
        i = i + 1;
    }
    assert(rest.take(len - start) =~= rest);
    Some(acc)
}

proof fn lemma_nat_decimal_value(n: nat)
    ensures
        nat_decimal(n).len() >= 1,
        all_digits(nat_decimal(n)),
        digits_value(nat_decimal(n)) == n,
    decreases n,
{
    let d = digit_char((n % 10) as nat);
    assert(((n % 10) + 48) as char as u32 == (n % 10) + 48);
    assert(is_digit(d) && digit_value(d) == n % 10);
    if n < 10 {
        let s = nat_decimal(n);
        assert(s.drop_last() =~= Seq::<char>::empty());
        assert(s.last() == d);
        assert(n % 10 == n);
        assert(digits_value(s) == digits_value(s.drop_last()) * 10 + digit_value(s.last()));
        assert(all_digits(s)) by {
            assert forall|i: int| 0 <= i < s.len() implies #[trigger] is_digit(s[i]) by {
                assert(s[i] == d);
            }
        }
    } else {
        lemma_nat_decimal_value(n / 10);
        let t = nat_decimal(n / 10);
        let s = nat_decimal(n);
        assert(s == t.push(d));
        assert(s.drop_last() =~= t);
        assert(s.last() == d);
        assert(digits_value(s) == digits_value(t) * 10 + digit_value(d));
        assert((n / 10) * 10 + n % 10 == n) by (nonlinear_arith);
        assert(all_digits(s)) by {
            assert forall|i: int| 0 <= i < s.len() implies #[trigger] is_digit(s[i]) by {
                if i < t.len() {
                    assert(s[i] == t[i]);
                }
            }
        }
    }
}

/// Reading back what `to_string` writes gives the number again: for every
/// `i64`, parsing its decimal rendering yields it.
pub proof fn law_decimal_round_trip(n: i64)
    ensures
        parse_i64_spec(int_decimal(n as int)) == Some(n),
        (i32::MIN <= n <= i32::MAX) ==> parse_i32_spec(int_decimal(n as int)) == Some(n as i32),
{
    let m: nat = if n < 0 {
        (-n) as nat
    } else {
        n as nat
    };
    lemma_nat_decimal_value(m);
    let digits = nat_decimal(m);
    assert(is_digit(digits[0]));
    if n < 0 {
        let s = seq!['-'] + digits;
        assert(s.drop_first() =~= digits);
        assert(s[0] == '-');
    } else {
        assert(digits[0] != '-' && digits[0] != '+');
    }
}

/// Parses a signed decimal integer as `str::parse::<i64>` does.
pub fn parse_i64(s: &str) -> (r: Option<i64>)
    ensures
        r == parse_i64_spec(s@),
{
    let len = s.unicode_len();
    if len == 0 {
        return None;
    }
    let c0 = s.get_char(0);
    if c0 == '-' || c0 == '+' {
        assert(s@.subrange(1, s@.len() as int) =~= s@.drop_first());
        if c0 == '-' {
            match parse_magnitude(s, 1, 9223372036854775808u64) {
                Some(m) => Some((0i128 - (m as i128)) as i64),
                None => None,
            }
        } else {
            match parse_magnitude(s, 1, 9223372036854775807u64) {
                Some(m) => Some(m as i64),
                None => None,
            }
        }
    } else {
        assert(s@.subrange(0, s@.len() as int) =~= s@);
        match parse_magnitude(s, 0, 9223372036854775807u64) {
            Some(m) => Some(m as i64),
            None => None,
        }
    }
}

/// Parses a signed decimal integer as `str::parse::<i32>` does.
pub fn parse_i32(s: &str) -> (r: Option<i32>)
    ensures
        r == parse_i32_spec(s@),
{
    let len = s.unicode_len();
    if len == 0 {
        return None;
    }
    let c0 = s.get_char(0);
    if c0 == '-' || c0 == '+' {
        assert(s@.subrange(1, s@.len() as int) =~= s@.drop_first());
        if c0 == '-' {
            match parse_magnitude(s, 1, 2147483648u64) {
                Some(m) => Some((0i64 - (m as i64)) as i32),
                None => None,
            }
        } else {
            match parse_magnitude(s, 1, 2147483647u64) {
                Some(m) => Some(m as i32),
                None => None,
            }
        }
    } else {
        assert(s@.subrange(0, s@.len() as int) =~= s@);
        match parse_magnitude(s, 0, 2147483647u64) {
            Some(m) => Some(m as i32),
            None => None,
        }
    }
}

} // verus!
