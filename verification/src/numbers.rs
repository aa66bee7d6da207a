//! Decimal integers in text: reading them (as `str::parse` does for
//! unsigned types) and writing them (as `ToString` does).
use vstd::prelude::*;

verus! {

/// Why a decimal integer could not be read (the kinds `str::parse` reports
/// for unsigned integers).
#[derive(Debug, Clone, Copy, PartialEq, Eq, Structural)]
pub enum IntErrorKind {
    /// The text is empty.
    Empty,
    /// The text holds a character that is not a digit where one is expected.
    InvalidDigit,
    /// The number does not fit in the target type.
    PosOverflow,
}

/// `c` is one of the ASCII digits `0`..`9`.
pub open spec fn is_digit(c: char) -> bool {
    0x30 <= (c as u32) <= 0x39
}

/// The value of an ASCII digit.
pub open spec fn digit_value(c: char) -> int {
    (c as u32) - 0x30
}

/// The ASCII digit for `d < 10`.
pub open spec fn digit_char(d: nat) -> char {
    (d + 0x30) as char
}

/// Reading the digits `d[..k]` left to right into a number that may not
/// exceed `max`: the first non-digit, or the first digit whose addition
/// takes the value past `max`, stops the reading with an error.
pub open spec fn read_digits(d: Seq<char>, k: int, max: int) -> Result<int, IntErrorKind>
    decreases k,
{
    if k <= 0 {
        Ok(0)
    } else {
        match read_digits(d, k - 1, max) {
            Err(e) => Err(e),
            Ok(v) => if !is_digit(d[k - 1]) {
                Err(IntErrorKind::InvalidDigit)
            } else if v * 10 + digit_value(d[k - 1]) > max {
                Err(IntErrorKind::PosOverflow)
            } else {
                Ok(v * 10 + digit_value(d[k - 1]))
            },
        }
    }
}

/// What `str::parse` gives for an unsigned integer type whose largest value
/// is `max`: an optional `+` sign followed by decimal digits only.
pub open spec fn parse_unsigned(s: Seq<char>, max: int) -> Result<int, IntErrorKind> {
    if s.len() == 0 {
        Err(IntErrorKind::Empty)
    } else if s.len() == 1 && (s[0] == '+' || s[0] == '-') {
        Err(IntErrorKind::InvalidDigit)
    } else {
        let d = if s[0] == '+' {
            s.drop_first()
        } else {
            s
        };
        read_digits(d, d.len() as int, max)
    }
}

/// The decimal digits of `n`, without leading zeros.
pub open spec fn decimal(n: nat) -> Seq<char>
    decreases n,
{
    if n < 10 {
        seq![digit_char(n)]
    } else {
        decimal(n / 10).push(digit_char(n % 10))
    }
}

/// The decimal text of the integer `n`, with a `-` in front when negative.
pub open spec fn signed_decimal(n: int) -> Seq<char> {
    if n < 0 {
        seq!['-'] + decimal((-n) as nat)
    } else {
        decimal(n as nat)
    }
}

/// A successful read stays within `0..=max`.
pub proof fn lemma_parse_unsigned_bounded(s: Seq<char>, max: int)
    requires
        0 <= max,
    ensures
        parse_unsigned(s, max) matches Ok(v) ==> 0 <= v <= max,
{
    if s.len() > 0 {
        let d = if s[0] == '+' {
            s.drop_first()
        } else {
            s
        };
        lemma_read_digits_bounded(d, d.len() as int, max);
    }
}

proof fn lemma_read_digits_bounded(d: Seq<char>, k: int, max: int)
    requires
        0 <= max,
    ensures
        read_digits(d, k, max) matches Ok(v) ==> 0 <= v <= max,
    decreases k,
{
    if k > 0 {
        lemma_read_digits_bounded(d, k - 1, max);
    }
}

/// Reads an unsigned decimal integer no larger than `max` from `s`.
pub fn parse_uint(s: &[char], max: u32) -> (r: Result<u32, IntErrorKind>)
    ensures
        match r {
            Ok(v) => parse_unsigned(s@, max as int) == Ok::<int, IntErrorKind>(v as int),
            Err(e) => parse_unsigned(s@, max as int) == Err::<int, IntErrorKind>(e),
        },
{
    if s.len() == 0 {
        return Err(IntErrorKind::Empty);
    }
    if s.len() == 1 && (s[0] == '+' || s[0] == '-') {
        return Err(IntErrorKind::InvalidDigit);
    }
    let start: usize = if s[0] == '+' {
        1
    } else {
        0
    };
    let ghost d = if s@[0] == '+' {
        s@.drop_first()
    } else {
        s@
    };
    assert(d == s@.subrange(start as int, s@.len() as int));
    assert(parse_unsigned(s@, max as int) == read_digits(d, d.len() as int, max as int));
    let mut acc: u32 = 0;
    let mut k: usize = start;
    while k < s.len()
        invariant
            start <= k <= s.len(),
            d == s@.subrange(start as int, s@.len() as int),
            parse_unsigned(s@, max as int) == read_digits(d, d.len() as int, max as int),
            read_digits(d, k - start, max as int) == Ok::<int, IntErrorKind>(acc as int),
            acc <= max,
        decreases s.len() - k,
    {
        let c = s[k];
        assert(d[k - start] == c);
        let u = c as u32;
        if !(0x30 <= u && u <= 0x39) {
            assert(read_digits(d, k - start + 1, max as int) == Err::<int, IntErrorKind>(
                IntErrorKind::InvalidDigit,
            ));
            proof {
                lemma_read_digits_err_stays(d, (k - start + 1) as int, d.len() as int, max as int);
            }
            return Err(IntErrorKind::InvalidDigit);
        }
        let dv = u - 0x30;
        let next: u64 = (acc as u64) * 10 + (dv as u64);
        if next > max as u64 {
            assert(read_digits(d, k - start + 1, max as int) == Err::<int, IntErrorKind>(
                IntErrorKind::PosOverflow,
            ));
            proof {
                lemma_read_digits_err_stays(d, (k - start + 1) as int, d.len() as int, max as int);
            }
            return Err(IntErrorKind::PosOverflow);
        }
        acc = next as u32;
        k += 1;
    }
    Ok(acc)
}

proof fn lemma_read_digits_err_stays(d: Seq<char>, k: int, j: int, max: int)
    requires
        0 <= k <= j,
        read_digits(d, k, max) is Err,
    ensures
        read_digits(d, j, max) == read_digits(d, k, max),
    decreases j - k,
{
    if j > k {
        lemma_read_digits_err_stays(d, k, j - 1, max);
    }
}

/// Reads a `u32` from decimal text (what `str::parse::<u32>` gives).
pub fn parse_u32(s: &[char]) -> (r: Result<u32, IntErrorKind>)
    ensures
        match r {
            Ok(v) => parse_unsigned(s@, u32::MAX as int) == Ok::<int, IntErrorKind>(v as int),
            Err(e) => parse_unsigned(s@, u32::MAX as int) == Err::<int, IntErrorKind>(e),
        },
{
    parse_uint(s, u32::MAX)
}

/// Reads a `u8` from decimal text (what `str::parse::<u8>` gives).
pub fn parse_u8(s: &[char]) -> (r: Result<u8, IntErrorKind>)
    ensures
        match r {
            Ok(v) => parse_unsigned(s@, u8::MAX as int) == Ok::<int, IntErrorKind>(v as int),
            Err(e) => parse_unsigned(s@, u8::MAX as int) == Err::<int, IntErrorKind>(e),
        },
{
    match parse_uint(s, 255) {
        Ok(v) => Ok(v as u8),
        Err(e) => Err(e),
    }
}

/// The decimal digits of `n` (what `n.to_string()` gives).
pub fn decimal_u32(n: u32) -> (v: Vec<char>)
    ensures
        v@ == decimal(n as nat),
    decreases n,
{
    if n < 10 {
        let mut v = Vec::new();
        v.push(((n as u8) + 0x30) as char);
        v
    } else {
        let mut v = decimal_u32(n / 10);
        v.push((((n % 10) as u8) + 0x30) as char);
        v
    }
}

/// The decimal text of `n` (what `n.to_string()` gives).
pub fn decimal_i32(n: i32) -> (v: Vec<char>)
    ensures
        v@ == signed_decimal(n as int),
{
    if n < 0 {
        let m: u32 = if n == i32::MIN {
            2147483648u32
        } else {
            (-n) as u32
        };
        let mut v = Vec::new();
        v.push('-');
        let digits = decimal_u32(m);
        let mut k: usize = 0;
        while k < digits.len()
            invariant
                k <= digits.len(),
                v@ == seq!['-'] + digits@.subrange(0, k as int),
            decreases digits.len() - k,
        {
            v.push(digits[k]);
            assert(digits@.subrange(0, k + 1) == digits@.subrange(0, k as int).push(digits@[k as int]));
            k += 1;
        }
        assert(digits@.subrange(0, digits.len() as int) == digits@);
        v
    } else {
        decimal_u32(n as u32)
    }
}

/// Reading looks only at the digits it has reached.
proof fn lemma_read_digits_prefix(d: Seq<char>, x: char, k: int, max: int)
    requires
        0 <= k <= d.len(),
    ensures
        read_digits(d.push(x), k, max) == read_digits(d, k, max),
    decreases k,
{
    if k > 0 {
        lemma_read_digits_prefix(d, x, k - 1, max);
        assert(d.push(x)[k - 1] == d[k - 1]);
    }
}

/// The decimal text of `n` is non-empty and starts with a digit.
proof fn lemma_decimal_shape(n: nat)
    ensures
        decimal(n).len() >= 1,
        is_digit(decimal(n)[0]),
    decreases n,
{
    if n >= 10 {
        lemma_decimal_shape(n / 10);
        assert(decimal(n)[0] == decimal(n / 10)[0]);
    }
}

/// Reading the digits of `n` gives `n` back.
proof fn lemma_read_decimal(n: nat, max: int)
    requires
        n <= max,
    ensures
        read_digits(decimal(n), decimal(n).len() as int, max) == Ok::<int, IntErrorKind>(n as int),
    decreases n,
{
    let s = decimal(n);
    if n < 10 {
        assert(read_digits(s, 0, max) == Ok::<int, IntErrorKind>(0));
    } else {
        let m = n / 10;
        let d = n % 10;
        lemma_read_decimal(m, max);
        lemma_decimal_shape(m);
        let prefix = decimal(m);
        assert(s == prefix.push(digit_char(d)));
        lemma_read_digits_prefix(prefix, digit_char(d), prefix.len() as int, max);
        assert(s[prefix.len() as int] == digit_char(d));
        assert(m * 10 + d == n);
    }
}

/// Writing a number in decimal and reading it back gives the number:
/// `parse(to_string(n)) == n` for every `n` the target type holds.
pub proof fn lemma_parse_decimal_round_trip(n: nat, max: int)
    requires
        n <= max,
    ensures
        parse_unsigned(decimal(n), max) == Ok::<int, IntErrorKind>(n as int),
{
    lemma_decimal_shape(n);
    lemma_read_decimal(n, max);
    assert(decimal(n)[0] != '+' && decimal(n)[0] != '-');
}

} // verus!
