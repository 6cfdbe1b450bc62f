//! Decimal numerals: writing integers and reading them back.
use crate::text::chars_of;
use vstd::prelude::*;

verus! {

/// Whether a character is an ASCII digit.
pub open spec fn is_digit(c: char) -> bool {
    '0' as int <= c as int <= '9' as int
}

/// The digit of a number below ten.
pub open spec fn digit_of(d: int) -> char {
    (48 + d) as char
}

/// The number that a digit stands for.
pub open spec fn digit_value(c: char) -> int {
    c as int - 48
}

/// The decimal numeral of a natural number.
pub open spec fn decimal_of_nat(n: nat) -> Seq<char>
    decreases n,
{
    if n < 10 {
        seq![digit_of(n as int)]
    } else {
        decimal_of_nat(n / 10).push(digit_of((n % 10) as int))
    }
}

/// The decimal numeral of an integer, with a minus sign where it is negative.
pub open spec fn decimal_of(n: int) -> Seq<char> {
    if n < 0 {
        seq!['-'] + decimal_of_nat((-n) as nat)
    } else {
        decimal_of_nat(n as nat)
    }
}

/// Whether `s` is one digit or more, and nothing else.
pub open spec fn all_digits(s: Seq<char>) -> bool {
    s.len() > 0 && forall|i: int| 0 <= i < s.len() ==> is_digit(#[trigger] s[i])
}

/// The number that a string of digits stands for.
pub open spec fn digits_value(s: Seq<char>) -> int
    decreases s.len(),
{
    if s.len() == 0 {
        0
    } else {
        digits_value(s.drop_last()) * 10 + digit_value(s.last())
    }
}

/// The number that `s` stands for where it is made of digits and is at most `max`.
pub open spec fn parse_digits_of(s: Seq<char>, max: int) -> Option<int> {
    if all_digits(s) && digits_value(s) <= max {
        Some(digits_value(s))
    } else {
        None
    }
}

/// An unsigned numeral: digits after an optional plus sign, at most `max`.
pub open spec fn parse_unsigned_of(s: Seq<char>, max: int) -> Option<int> {
    if s.len() > 0 && s[0] == '+' {
        parse_digits_of(s.skip(1), max)
    } else {
        parse_digits_of(s, max)
    }
}

/// A signed numeral: digits after an optional sign, from `min` up to `max`.
pub open spec fn parse_signed_of(s: Seq<char>, min: int, max: int) -> Option<int> {
    if s.len() > 0 && s[0] == '-' {
        match parse_digits_of(s.skip(1), -min) {
            Some(n) => Some(-n),
            None => None,
        }
    } else {
        parse_unsigned_of(s, max)
    }
}

/// Strings of digits stand for natural numbers, and a longer one for no smaller number.
proof fn lemma_digits_value_monotone(s: Seq<char>, k: int)
    requires
        0 <= k <= s.len(),
        forall|i: int| 0 <= i < s.len() ==> is_digit(#[trigger] s[i]),
    ensures
        0 <= digits_value(s.take(k)) <= digits_value(s),
    decreases s.len(),
{
    if k == s.len() {
        assert(s.take(k) =~= s);
        if s.len() > 0 {
            lemma_digits_value_monotone(s.drop_last(), s.len() - 1);
            assert(s.drop_last().take(s.len() - 1) =~= s.drop_last());
            assert(is_digit(s[s.len() - 1]));
        }
    } else {
        lemma_digits_value_monotone(s.drop_last(), k);
        assert(s.drop_last().take(k) =~= s.take(k));
        assert(is_digit(s[s.len() - 1]));
    }
}

/// Appending a digit to a string of digits.
proof fn lemma_digits_value_push(s: Seq<char>, c: char)
    ensures
        digits_value(s.push(c)) == digits_value(s) * 10 + digit_value(c),
{
    assert(s.push(c).drop_last() =~= s);
}

/// A numeral is made of digits and is read back as the number it was written for.
pub proof fn lemma_decimal_round_trip(n: nat)
    ensures
        all_digits(decimal_of_nat(n)),
        digits_value(decimal_of_nat(n)) == n,
    decreases n,
{
    if n < 10 {
        let s = decimal_of_nat(n);
        assert(s.drop_last() =~= Seq::<char>::empty());
        assert(digits_value(s.drop_last()) == 0);
    } else {
        lemma_decimal_round_trip(n / 10);
        lemma_digits_value_push(decimal_of_nat(n / 10), digit_of((n % 10) as int));
    }
}

/// The numeral of an unsigned number reads back as that number.
pub proof fn law_unsigned_numeral_reads_back(n: nat, max: int)
    requires
        n <= max,
    ensures
        parse_unsigned_of(decimal_of(n as int), max) == Some(n as int),
{
    lemma_decimal_round_trip(n);
    assert(is_digit(decimal_of_nat(n)[0]));
}

/// The numeral of a signed number reads back as that number.
pub proof fn law_signed_numeral_reads_back(n: int, min: int, max: int)
    requires
        min <= n <= max,
    ensures
        parse_signed_of(decimal_of(n), min, max) == Some(n),
{
    if n < 0 {
        lemma_decimal_round_trip((-n) as nat);
        assert(decimal_of(n).skip(1) =~= decimal_of_nat((-n) as nat));
    } else {
        lemma_decimal_round_trip(n as nat);
        assert(is_digit(decimal_of_nat(n as nat)[0]));
    }
}

/// The digit of a number below ten.
fn digit(d: u8) -> (c: char)
    requires
        d < 10,
    ensures
        c == digit_of(d as int),
{
    (48 + d) as char
}

/// Appends the decimal numeral of `n` to `out`.
fn push_decimal(out: &mut String, n: u128)
    ensures
        final(out)@ == old(out)@ + decimal_of_nat(n as nat),
    decreases n,
{
    if n >= 10 {
        push_decimal(out, n / 10);
    }
    let ghost before = out@;
    out.push(digit((n % 10) as u8));
    assert(out@ =~= old(out)@ + decimal_of_nat(n as nat));
}

/// The decimal numeral of an unsigned number.
pub fn decimal(n: u128) -> (s: String)
    ensures
        s@ == decimal_of(n as int),
{
    let mut s = String::new();
    push_decimal(&mut s, n);
    assert(s@ =~= decimal_of_nat(n as nat));
    s
}

/// The decimal numeral of a signed number.
pub fn decimal_signed(n: i64) -> (s: String)
    ensures
        s@ == decimal_of(n as int),
{
    let mut s = String::new();
    let wide: i128 = n as i128;
    if wide < 0 {
        s.push('-');
        push_decimal(&mut s, (-wide) as u128);
    } else {
        push_decimal(&mut s, wide as u128);
    }
    assert(s@ =~= decimal_of(n as int));
    s
}

/// The number that a digit stands for.
fn digit_number(c: char) -> (d: Option<u8>)
    ensures
        match d {
            Some(d) => is_digit(c) && d == digit_value(c),
            None => !is_digit(c),
        },
{
    let code: u32 = c as u32;
    if code < 48 || code > 57 {
        None
    } else {
        Some((code - 48) as u8)
    }
}

/// The number that the digits of `chars` from `from` on stand for.
fn parse_digits(chars: &Vec<char>, from: usize, max: u64) -> (value: Option<u64>)
    requires
        from <= chars@.len(),
    ensures
        match value {
            Some(value) => parse_digits_of(chars@.skip(from as int), max as int) == Some(
                value as int,
            ),
            None => parse_digits_of(chars@.skip(from as int), max as int) is None,
        },
{
    let n: usize = chars.len();
    if from == n {
        return None;
    }
    let ghost s = chars@.skip(from as int);
    let mut i: usize = from;
    let mut value: u128 = 0;
    assert(s.take(0) =~= Seq::<char>::empty());
    while i < n
        invariant
            from <= i <= n == chars@.len(),
            s == chars@.skip(from as int),
            forall|j: int| 0 <= j < i - from ==> is_digit(#[trigger] s[j]),
            value == digits_value(s.take(i - from)),
            value <= max,
        decreases n - i,
    {
        let c: char = chars[i];
        assert(c == s[i - from]);
        let d: u8 = match digit_number(c) {
            Some(d) => d,
            None => {
                assert(!is_digit(s[i - from]));
                return None;
            },
        };
        value = value * 10 + d as u128;
        proof {
            assert(s.take(i + 1 - from) =~= s.take(i - from).push(c));
            lemma_digits_value_push(s.take(i - from), c);
        }
        if value > max as u128 {
            proof {
                if all_digits(s) {
                    lemma_digits_value_monotone(s, i + 1 - from);
                }
            }
            return None;
        }
        i += 1;
    }
    assert(s.take(n - from) =~= s);
    assert(all_digits(s));
    Some(value as u64)
}

/// Reads an unsigned numeral of the width of `usize`.
pub fn parse_usize(s: &str) -> (value: Option<usize>)
    ensures
        match value {
            Some(value) => parse_unsigned_of(s@, usize::MAX as int) == Some(value as int),
            None => parse_unsigned_of(s@, usize::MAX as int) is None,
        },
{
    let chars = chars_of(s);
    let from: usize = if chars.len() > 0 && chars[0] == '+' {
        1
    } else {
        0
    };
    assert(s@.skip(0) =~= s@);
    match parse_digits(&chars, from, usize::MAX as u64) {
        Some(value) => Some(value as usize),
        None => None,
    }
}

/// Reads a signed numeral from `min` up to `max`.
fn parse_between(s: &str, min: i64, max: i64) -> (value: Option<i64>)
    requires
        min < 0 <= max,
    ensures
        match value {
            Some(value) => parse_signed_of(s@, min as int, max as int) == Some(value as int),
            None => parse_signed_of(s@, min as int, max as int) is None,
        },
{
    let chars = chars_of(s);
    assert(s@.skip(0) =~= s@);
    if chars.len() > 0 && chars[0] == '-' {
        let bound: i128 = -(min as i128);
        match parse_digits(&chars, 1, bound as u64) {
            Some(value) => Some((-(value as i128)) as i64),
            None => None,
        }
    } else {
        let from: usize = if chars.len() > 0 && chars[0] == '+' {
            1
        } else {
            0
        };
        match parse_digits(&chars, from, max as u64) {
            Some(value) => Some(value as i64),
            None => None,
        }
    }
}

/// Reads a signed numeral of 64 bits.
pub fn parse_i64(s: &str) -> (value: Option<i64>)
    ensures
        match value {
            Some(value) => parse_signed_of(s@, i64::MIN as int, i64::MAX as int) == Some(
                value as int,
            ),
            None => parse_signed_of(s@, i64::MIN as int, i64::MAX as int) is None,
        },
{
    parse_between(s, i64::MIN, i64::MAX)
}

/// Reads a signed numeral of 32 bits.
pub fn parse_i32(s: &str) -> (value: Option<i32>)
    ensures
        match value {
            Some(value) => parse_signed_of(s@, i32::MIN as int, i32::MAX as int) == Some(
                value as int,
            ),
            None => parse_signed_of(s@, i32::MIN as int, i32::MAX as int) is None,
        },
{
    match parse_between(s, i32::MIN as i64, i32::MAX as i64) {
        Some(value) => {
            proof {
                let digits = s@.skip(1);
                if s@.len() > 0 && s@[0] == '-' {
                    if all_digits(digits) {
                        lemma_digits_value_monotone(digits, 0);
                    }
                } else if s@.len() > 0 && s@[0] == '+' {
                    lemma_digits_value_monotone(digits, 0);
                } else {
                    lemma_digits_value_monotone(s@, 0);
                }
            }
            Some(value as i32)
        },
        None => None,
    }
}

/// Only digits are read as a number, after a plus sign or a minus sign where one is allowed, and only a
/// number in range.
pub proof fn law_only_numerals_are_read(s: Seq<char>, min: int, max: int)
    requires
        min <= 0 <= max,
    ensures
        parse_unsigned_of(s, max) matches Some(n) ==> {
            &&& 0 <= n <= max
            &&& s.len() > 0
            &&& s[0] == '+' ==> s.len() > 1
            &&& s[0] == '+' || '0' <= s[0] <= '9'
            &&& forall|i: int| 1 <= i < s.len() ==> '0' <= #[trigger] s[i] <= '9'
        },
        parse_signed_of(s, min, max) matches Some(n) ==> {
            &&& min <= n <= max
            &&& s.len() > 0
            &&& s[0] == '+' || s[0] == '-' ==> s.len() > 1
            &&& s[0] == '+' || s[0] == '-' || '0' <= s[0] <= '9'
            &&& forall|i: int| 1 <= i < s.len() ==> '0' <= #[trigger] s[i] <= '9'
        },
{
    if all_digits(s) {
        lemma_digits_value_monotone(s, 0);
        assert(is_digit(s[0]));
    }
    if s.len() > 1 && all_digits(s.skip(1)) {
        let rest = s.skip(1);
        lemma_digits_value_monotone(rest, 0);
        assert forall|i: int| 1 <= i < s.len() implies '0' <= #[trigger] s[i] <= '9' by {
            assert(is_digit(rest[i - 1]));
            assert(rest[i - 1] == s[i]);
        }
    }
}

/// Each digit counts ten times as much as the one behind it; a plus sign before a number changes
/// nothing, and a minus sign its sign.
pub proof fn law_numerals_are_decimal(s: Seq<char>, digit: char, min: int, max: int)
    requires
        s.len() > 0,
        forall|i: int| 0 <= i < s.len() ==> '0' <= #[trigger] s[i] <= '9',
        '0' <= digit <= '9',
    ensures
        parse_unsigned_of(seq![digit], max) == (if digit as int - '0' as int <= max {
            Some(digit as int - '0' as int)
        } else {
            None
        }),
        ({
            let longer = parse_unsigned_of(s.push(digit), max);
            match parse_unsigned_of(s, max) {
                Some(n) => {
                    let sum = n * 10 + (digit as int - '0' as int);
                    longer == if sum <= max {
                        Some(sum)
                    } else {
                        None
                    }
                },
                None => longer is None,
            }
        }),
        parse_unsigned_of(seq!['+'] + s, max) == parse_unsigned_of(s, max),
        parse_signed_of(s, min, max) == parse_unsigned_of(s, max),
        parse_signed_of(seq!['+'] + s, min, max) == parse_unsigned_of(s, max),
        match parse_unsigned_of(s, -min) {
            Some(n) => parse_signed_of(seq!['-'] + s, min, max) == Some(-n),
            None => parse_signed_of(seq!['-'] + s, min, max) is None,
        },
{
    assert forall|i: int| 0 <= i < s.len() implies is_digit(#[trigger] s[i]) by {}
    assert(is_digit(s[0]));
    let one = seq![digit];
    assert(one.drop_last() =~= Seq::<char>::empty());
    assert(digits_value(one.drop_last()) == 0);
    assert(all_digits(one));
    let longer = s.push(digit);
    assert forall|i: int| 0 <= i < longer.len() implies is_digit(#[trigger] longer[i]) by {
        if i < s.len() {
            assert(is_digit(s[i]));
        }
    }
    assert(longer[0] == s[0]);
    lemma_digits_value_push(s, digit);
    lemma_digits_value_monotone(s, 0);
    assert((seq!['+'] + s).skip(1) =~= s);
    assert((seq!['-'] + s).skip(1) =~= s);
}

} // verus!
