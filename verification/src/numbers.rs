//! Decimal integers in text: reading them as `str::parse` does for the 16-bit integer types,
//! and writing them as `Display` does.
use crate::text::chars_of;
use vstd::prelude::*;

verus! {

/// The kinds of error that reading an integer from text can give.
#[derive(Debug, Clone, Copy, PartialEq, Eq, Structural)]
pub enum IntErrorKind {
    /// The text is empty.
    Empty,
    /// The text holds a character that is no digit where a digit must stand.
    InvalidDigit,
    /// The number is too large for the integer type.
    PosOverflow,
    /// The number is too small for the integer type.
    NegOverflow,
}

/// An integer could not be read from text.
#[derive(Debug, Clone, Copy, PartialEq, Eq, Structural)]
pub struct ParseIntError {
    pub kind: IntErrorKind,
}

impl ParseIntError {
    /// What was wrong with the text.
    pub fn kind(&self) -> (r: &IntErrorKind)
        ensures
            *r == self.kind,
    {
        &self.kind
    }

    /// The message that describes the error.
    pub fn to_string(&self) -> (r: String)
        ensures
            r@ == spec_int_error_message(self.kind),
    {
        match self.kind {
            IntErrorKind::Empty => String::from_str("cannot parse integer from empty string"),
            IntErrorKind::InvalidDigit => String::from_str("invalid digit found in string"),
            IntErrorKind::PosOverflow => String::from_str("number too large to fit in target type"),
            IntErrorKind::NegOverflow => String::from_str("number too small to fit in target type"),
        }
    }
}

/// The message that describes each kind of error.
pub open spec fn spec_int_error_message(kind: IntErrorKind) -> Seq<char> {
    match kind {
        IntErrorKind::Empty => "cannot parse integer from empty string"@,
        IntErrorKind::InvalidDigit => "invalid digit found in string"@,
        IntErrorKind::PosOverflow => "number too large to fit in target type"@,
        IntErrorKind::NegOverflow => "number too small to fit in target type"@,
    }
}

/// An ASCII decimal digit.
pub open spec fn is_digit(c: char) -> bool {
    '0' <= c && c <= '9'
}

/// The value of an ASCII decimal digit.
pub open spec fn digit_value(c: char) -> int {
    (c as int) - ('0' as int)
}

/// Read the digits `d` from left to right into a number that must stay within `lo..=hi`,
/// adding each digit, or subtracting it for a negative number. The first character that is
/// no digit, or the first digit that takes the number out of range, gives the error.
pub open spec fn digits_value(d: Seq<char>, negative: bool, lo: int, hi: int) -> Result<int, IntErrorKind>
    decreases d.len(),
{
    if d.len() == 0 {
        Ok(0)
    } else {
        match digits_value(d.drop_last(), negative, lo, hi) {
            Err(e) => Err(e),
            Ok(v) => if !is_digit(d.last()) {
                Err(IntErrorKind::InvalidDigit)
            } else {
                let n = if negative {
                    v * 10 - digit_value(d.last())
                } else {
                    v * 10 + digit_value(d.last())
                };
                if n > hi {
                    Err(IntErrorKind::PosOverflow)
                } else if n < lo {
                    Err(IntErrorKind::NegOverflow)
                } else {
                    Ok(n)
                }
            },
        }
    }
}

/// Read the decimal integer `s`, which must lie within `lo..=hi`: an optional `+` sign, or a
/// `-` sign where the type is signed, then digits.
pub open spec fn spec_parse_int(s: Seq<char>, signed: bool, lo: int, hi: int) -> Result<int, IntErrorKind> {
    if s.len() == 0 {
        Err(IntErrorKind::Empty)
    } else if (s[0] == '+' || s[0] == '-') && s.len() == 1 {
        Err(IntErrorKind::InvalidDigit)
    } else if s[0] == '+' {
        digits_value(s.skip(1), false, lo, hi)
    } else if s[0] == '-' && signed {
        digits_value(s.skip(1), true, lo, hi)
    } else {
        digits_value(s, false, lo, hi)
    }
}

/// Every number that reading digits gives lies within the bounds.
proof fn lemma_digits_value_in_range(d: Seq<char>, negative: bool, lo: int, hi: int)
    requires
        lo <= 0 <= hi,
    ensures
        digits_value(d, negative, lo, hi) matches Ok(v) ==> lo <= v <= hi,
    decreases d.len(),
{
    if d.len() > 0 {
        lemma_digits_value_in_range(d.drop_last(), negative, lo, hi);
    }
}

/// Read the digits `chars[start..]` within the bounds `lo..=hi`.
fn read_digits(chars: &Vec<char>, start: usize, negative: bool, lo: i32, hi: i32) -> (r: Result<i32, ParseIntError>)
    requires
        start <= chars@.len(),
        -0x10000 <= lo <= 0 <= hi <= 0x10000,
    ensures
        match digits_value(chars@.skip(start as int), negative, lo as int, hi as int) {
            Ok(v) => r == Ok::<i32, ParseIntError>(v as i32),
            Err(k) => r == Err::<i32, ParseIntError>(ParseIntError { kind: k }),
        },
{
    let mut v: i32 = 0;
    let mut i: usize = start;
    while i < chars.len()
        invariant
            start <= i <= chars@.len(),
            -0x10000 <= lo <= 0 <= hi <= 0x10000,
            lo <= v <= hi,
            digits_value(chars@.subrange(start as int, i as int), negative, lo as int, hi as int) == Ok::<
                int,
                IntErrorKind,
            >(v as int),
        decreases chars@.len() - i,
    {
        let c = chars[i];
        proof {
            let next = chars@.subrange(start as int, i + 1);
            assert(next.drop_last() =~= chars@.subrange(start as int, i as int));
            assert(next.last() == c);
        }
        if !('0' <= c && c <= '9') {
            proof {
                assert(chars@.skip(start as int).take((i - start) + 1) =~= chars@.subrange(start as int, i + 1));
                lemma_digits_prefix_error(chars@.skip(start as int), (i - start) as nat + 1, negative, lo as int, hi as int);
            }
            return Err(ParseIntError { kind: IntErrorKind::InvalidDigit });
        }
        let digit: i32 = (c as u32 - '0' as u32) as i32;
        let n: i32 = if negative {
            v * 10 - digit
        } else {
            v * 10 + digit
        };
        if n > hi {
            proof {
                assert(chars@.skip(start as int).take((i - start) + 1) =~= chars@.subrange(start as int, i + 1));
                lemma_digits_prefix_error(chars@.skip(start as int), (i - start) as nat + 1, negative, lo as int, hi as int);
            }
            return Err(ParseIntError { kind: IntErrorKind::PosOverflow });
        }
        if n < lo {
            proof {
                assert(chars@.skip(start as int).take((i - start) + 1) =~= chars@.subrange(start as int, i + 1));
                lemma_digits_prefix_error(chars@.skip(start as int), (i - start) as nat + 1, negative, lo as int, hi as int);
            }
            return Err(ParseIntError { kind: IntErrorKind::NegOverflow });
        }
        v = n;
        i += 1;
    }
    assert(chars@.subrange(start as int, chars@.len() as int) =~= chars@.skip(start as int));
    Ok(v)
}

/// Once reading the first `k` digits fails, reading all of them fails the same way.
proof fn lemma_digits_prefix_error(d: Seq<char>, k: nat, negative: bool, lo: int, hi: int)
    requires
        k <= d.len(),
        digits_value(d.take(k as int), negative, lo, hi) is Err,
    ensures
        digits_value(d, negative, lo, hi) == digits_value(d.take(k as int), negative, lo, hi),
    decreases d.len() - k,
{
    if k < d.len() {
        assert(d.drop_last().take(k as int) =~= d.take(k as int));
        lemma_digits_prefix_error(d.drop_last(), k, negative, lo, hi);
    } else {
        assert(d.take(k as int) =~= d);
    }
}

/// Read a decimal integer within `lo..=hi`.
fn parse_int(s: &str, signed: bool, lo: i32, hi: i32) -> (r: Result<i32, ParseIntError>)
    requires
        -0x10000 <= lo <= 0 <= hi <= 0x10000,
    ensures
        match spec_parse_int(s@, signed, lo as int, hi as int) {
            Ok(v) => r == Ok::<i32, ParseIntError>(v as i32),
            Err(k) => r == Err::<i32, ParseIntError>(ParseIntError { kind: k }),
        },
        r matches Ok(v) ==> lo <= v <= hi,
{
    let chars = chars_of(s);
    proof {
        lemma_digits_value_in_range(chars@.skip(1), true, lo as int, hi as int);
        lemma_digits_value_in_range(chars@.skip(1), false, lo as int, hi as int);
        lemma_digits_value_in_range(chars@.skip(0), false, lo as int, hi as int);
        assert(chars@.skip(0) =~= chars@);
    }
    if chars.len() == 0 {
        return Err(ParseIntError { kind: IntErrorKind::Empty });
    }
    let first = chars[0];
    if (first == '+' || first == '-') && chars.len() == 1 {
        Err(ParseIntError { kind: IntErrorKind::InvalidDigit })
    } else if first == '+' {
        read_digits(&chars, 1, false, lo, hi)
    } else if first == '-' && signed {
        read_digits(&chars, 1, true, lo, hi)
    } else {
        read_digits(&chars, 0, false, lo, hi)
    }
}

/// Read an unsigned 16-bit integer as `str::parse::<u16>` does.
pub fn parse_u16(s: &str) -> (r: Result<u16, ParseIntError>)
    ensures
        match spec_parse_int(s@, false, 0, u16::MAX as int) {
            Ok(v) => r == Ok::<u16, ParseIntError>(v as u16),
            Err(k) => r == Err::<u16, ParseIntError>(ParseIntError { kind: k }),
        },
{
    match parse_int(s, false, 0, 0xffff) {
        Ok(v) => Ok(v as u16),
        Err(e) => Err(e),
    }
}

/// Read a signed 16-bit integer as `str::parse::<i16>` does.
pub fn parse_i16(s: &str) -> (r: Result<i16, ParseIntError>)
    ensures
        match spec_parse_int(s@, true, i16::MIN as int, i16::MAX as int) {
            Ok(v) => r == Ok::<i16, ParseIntError>(v as i16),
            Err(k) => r == Err::<i16, ParseIntError>(ParseIntError { kind: k }),
        },
{
    match parse_int(s, true, -0x8000, 0x7fff) {
        Ok(v) => Ok(v as i16),
        Err(e) => Err(e),
    }
}

/// The decimal digit of a number below ten.
pub open spec fn spec_digit_char(n: nat) -> char {
    (('0' as int) + n) as char
}

/// The decimal notation of a natural number, without leading zeros.
pub open spec fn spec_decimal(n: nat) -> Seq<char>
    decreases n,
{
    if n < 10 {
        seq![spec_digit_char(n)]
    } else {
        spec_decimal(n / 10).push(spec_digit_char(n % 10))
    }
}

/// The decimal notation of an integer, with a `-` sign for a negative one.
pub open spec fn spec_signed_decimal(n: int) -> Seq<char> {
    if n < 0 {
        seq!['-'] + spec_decimal((-n) as nat)
    } else {
        spec_decimal(n as nat)
    }
}

/// Append the decimal notation of `n`.
pub fn push_decimal(v: &mut Vec<char>, n: u64)
    ensures
        final(v)@ == old(v)@ + spec_decimal(n as nat),
    decreases n,
{
    if n >= 10 {
        push_decimal(v, n / 10);
    }
    let d: u64 = n % 10;
    let c: char = (('0' as u8) + (d as u8)) as char;
    v.push(c);
    assert(spec_decimal(n as nat) =~= if n < 10 {
        seq![spec_digit_char(n as nat)]
    } else {
        spec_decimal((n / 10) as nat).push(spec_digit_char((n % 10) as nat))
    });
}

/// Append the decimal notation of `n`, with a `-` sign for a negative number.
pub fn push_signed_decimal(v: &mut Vec<char>, n: i64)
    ensures
        final(v)@ == old(v)@ + spec_signed_decimal(n as int),
{
    if n < 0 {
        v.push('-');
        let m: u64 = if n == i64::MIN {
            0x8000_0000_0000_0000u64
        } else {
            (-n) as u64
        };
        push_decimal(v, m);
        assert(v@ =~= old(v)@ + spec_signed_decimal(n as int));
    } else {
        push_decimal(v, n as u64);
    }
}

/// The decimal notation of a number starts with a digit and is never empty.
proof fn lemma_decimal_starts_with_digit(n: nat)
    ensures
        spec_decimal(n).len() >= 1,
        is_digit(spec_decimal(n)[0]),
    decreases n,
{
    if n >= 10 {
        lemma_decimal_starts_with_digit(n / 10);
    }
}

/// Reading the digits of a number's decimal notation gives the number back, negated where it
/// is read as negative, as long as the result lies within the bounds.
proof fn lemma_digits_of_decimal(n: nat, negative: bool, lo: int, hi: int)
    requires
        lo <= 0 <= hi,
        negative ==> -n >= lo,
        !negative ==> n <= hi,
    ensures
        digits_value(spec_decimal(n), negative, lo, hi) == Ok::<int, IntErrorKind>(if negative { -n } else { n as int }),
    decreases n,
{
    let d = spec_decimal(n);
    let k = n % 10;
    let q = n / 10;
    assert(d.last() == spec_digit_char(k));
    assert(digit_value(d.last()) == k);
    assert(is_digit(d.last()));
    if n < 10 {
        assert(d.drop_last() =~= Seq::<char>::empty());
        assert(digits_value(d.drop_last(), negative, lo, hi) == Ok::<int, IntErrorKind>(0));
    } else {
        lemma_digits_of_decimal(q, negative, lo, hi);
        assert(d.drop_last() =~= spec_decimal(q));
        assert(q * 10 + k == n);
        assert(digits_value(d.drop_last(), negative, lo, hi) == Ok::<int, IntErrorKind>(if negative { -q } else { q as int }));
    }
}

/// Reading the decimal notation of a number gives the number back, for a signed or an
/// unsigned integer type whose bounds hold it: what `parse_u16` and `parse_i16` read of what
/// `push_decimal` writes.
pub proof fn lemma_parse_decimal(n: nat, signed: bool, lo: int, hi: int)
    requires
        lo <= 0,
        n <= hi,
    ensures
        spec_parse_int(spec_decimal(n), signed, lo, hi) == Ok::<int, IntErrorKind>(n as int),
{
    lemma_decimal_starts_with_digit(n);
    lemma_digits_of_decimal(n, false, lo, hi);
}

/// Reading the signed decimal notation of an integer gives the integer back, for a signed
/// integer type whose bounds hold it: what `parse_i16` reads of what `push_signed_decimal`
/// writes.
pub proof fn lemma_parse_signed_decimal(n: int, lo: int, hi: int)
    requires
        lo <= n <= hi,
        lo <= 0 <= hi,
    ensures
        spec_parse_int(spec_signed_decimal(n), true, lo, hi) == Ok::<int, IntErrorKind>(n),
{
    if n < 0 {
        let m = (-n) as nat;
        lemma_decimal_starts_with_digit(m);
        lemma_digits_of_decimal(m, true, lo, hi);
        let s = spec_signed_decimal(n);
        assert(s.skip(1) =~= spec_decimal(m));
    } else {
        lemma_parse_decimal(n as nat, true, lo, hi);
    }
}

/// The decimal notation of a number is made of digits only.
pub proof fn lemma_decimal_is_digits(n: nat)
    ensures
        spec_decimal(n).len() >= 1,
        forall|i: int| 0 <= i < spec_decimal(n).len() ==> is_digit(#[trigger] spec_decimal(n)[i]),
    decreases n,
{
    if n >= 10 {
        lemma_decimal_is_digits(n / 10);
        let d = spec_decimal(n);
        let q = spec_decimal(n / 10);
        assert forall|i: int| 0 <= i < d.len() implies is_digit(#[trigger] d[i]) by {
            if i < q.len() {
                assert(d[i] == q[i]);
            }
        }
    }
}

} // verus!
