//! Decimal integers: parsing them the way `str::parse` does for `u32` and
//! `i32`, and writing them out.

use vstd::prelude::*;

verus! {

/// Why a decimal integer was refused; the kinds of `std::num::IntErrorKind`
/// that `str::parse` reports.
#[derive(Debug, Clone, Copy, PartialEq, Eq)]
pub enum NumberError {
    /// The text was empty.
    Empty,
    /// A character other than a digit, or a sign with no digits after it.
    InvalidDigit,
    /// The value is above the type's maximum.
    PosOverflow,
    /// The value is below the type's minimum.
    NegOverflow,
}

impl NumberError {
    /// The message `ParseIntError` displays for this kind.
    pub fn message(&self) -> (m: String)
        ensures
            m@ == number_error_message(*self),
    {
        match self {
            NumberError::Empty => String::from_str("cannot parse integer from empty string"),
            NumberError::InvalidDigit => String::from_str("invalid digit found in string"),
            NumberError::PosOverflow => String::from_str("number too large to fit in target type"),
            NumberError::NegOverflow => String::from_str("number too small to fit in target type"),
        }
    }
}

/// The message `ParseIntError` displays for each kind.
pub open spec fn number_error_message(e: NumberError) -> Seq<char> {
    match e {
        NumberError::Empty => "cannot parse integer from empty string"@,
        NumberError::InvalidDigit => "invalid digit found in string"@,
        NumberError::PosOverflow => "number too large to fit in target type"@,
        NumberError::NegOverflow => "number too small to fit in target type"@,
    }
}

pub open spec fn is_digit(c: char) -> bool {
    '0' <= c && c <= '9'
}

pub open spec fn digit_value(c: char) -> nat {
    (c as nat - '0' as nat) as nat
}

/// Reads the digits `d` from the left, as `str::parse` does: the first
/// character that is not a digit gives `InvalidDigit`, and the first step that
/// takes the value above `bound` gives `overflow`.
pub open spec fn scan_digits(d: Seq<char>, bound: nat, overflow: NumberError) -> Result<
    nat,
    NumberError,
>
    decreases d.len(),
{
    if d.len() == 0 {
        Ok(0)
    } else {
        match scan_digits(d.drop_last(), bound, overflow) {
            Err(e) => Err(e),
            Ok(acc) => if !is_digit(d.last()) {
                Err(NumberError::InvalidDigit)
            } else if acc * 10 + digit_value(d.last()) > bound {
                Err(overflow)
            } else {
                Ok(acc * 10 + digit_value(d.last()))
            },
        }
    }
}

/// `s` parsed as an unsigned integer no larger than `max`, as `str::parse`
/// does for unsigned types: an optional `+`, then at least one digit.
pub open spec fn parse_unsigned(s: Seq<char>, max: nat) -> Result<nat, NumberError> {
    if s.len() == 0 {
        Err(NumberError::Empty)
    } else if s.len() == 1 && (s[0] == '+' || s[0] == '-') {
        Err(NumberError::InvalidDigit)
    } else if s[0] == '+' {
        scan_digits(s.drop_first(), max, NumberError::PosOverflow)
    } else {
        scan_digits(s, max, NumberError::PosOverflow)
    }
}

/// `s` parsed as an `i32`, as `str::parse` does: an optional `+` or `-`, then
/// at least one digit.
pub open spec fn parse_i32_spec(s: Seq<char>) -> Result<int, NumberError> {
    if s.len() == 0 {
        Err(NumberError::Empty)
    } else if s.len() == 1 && (s[0] == '+' || s[0] == '-') {
        Err(NumberError::InvalidDigit)
    } else if s[0] == '-' {
        match scan_digits(s.drop_first(), 0x8000_0000, NumberError::NegOverflow) {
            Ok(m) => Ok(-(m as int)),
            Err(e) => Err(e),
        }
    } else if s[0] == '+' {
        match scan_digits(s.drop_first(), 0x7fff_ffff, NumberError::PosOverflow) {
            Ok(m) => Ok(m as int),
            Err(e) => Err(e),
        }
    } else {
        match scan_digits(s, 0x7fff_ffff, NumberError::PosOverflow) {
            Ok(m) => Ok(m as int),
            Err(e) => Err(e),
        }
    }
}

/// `s` parsed as a `u32`.
pub open spec fn parse_u32_spec(s: Seq<char>) -> Result<nat, NumberError> {
    parse_unsigned(s, 0xffff_ffff)
}

/// The decimal digit for `d < 10`.
pub open spec fn digit_char(d: nat) -> char {
    (d + '0' as nat) as char
}

/// The decimal writing of `n`, without leading zeros.
pub open spec fn decimal(n: nat) -> Seq<char>
    decreases n,
{
    if n < 10 {
        seq![digit_char(n)]
    } else {
        decimal(n / 10).push(digit_char(n % 10))
    }
}

/// The decimal writing of the signed `n`.
pub open spec fn signed_decimal(n: int) -> Seq<char> {
    if n < 0 {
        seq!['-'] + decimal((-n) as nat)
    } else {
        decimal(n as nat)
    }
}

proof fn lemma_scan_err_stays(d: Seq<char>, k: int, bound: nat, overflow: NumberError)
    requires
        0 <= k <= d.len(),
        scan_digits(d.take(k), bound, overflow) is Err,
    ensures
        scan_digits(d, bound, overflow) == scan_digits(d.take(k), bound, overflow),
    decreases d.len() - k,
{
    if k == d.len() {
        assert(d.take(k) =~= d);
    } else {
        assert(d.drop_last().take(k) =~= d.take(k));
        lemma_scan_err_stays(d.drop_last(), k, bound, overflow);
    }
}

/// Reads the digits `s[lo..]` as `scan_digits` does.
fn scan_digits_exec(s: &[char], lo: usize, bound: u64, overflow: NumberError) -> (r: Result<
    u64,
    NumberError,
>)
    requires
        lo <= s@.len(),
        bound <= 0xffff_ffff,
    ensures
        match r {
            Ok(v) => scan_digits(s@.skip(lo as int), bound as nat, overflow) == Ok::<
                nat,
                NumberError,
            >(v as nat),
            Err(e) => scan_digits(s@.skip(lo as int), bound as nat, overflow) == Err::<
                nat,
                NumberError,
            >(e),
        },
{
    let ghost d = s@.skip(lo as int);
    let mut acc: u64 = 0;
    let mut i: usize = lo;
    assert(d.take(0) =~= Seq::<char>::empty());
    while i < s.len()
        invariant
            lo <= i <= s@.len(),
            d == s@.skip(lo as int),
            bound <= 0xffff_ffff,
            acc <= bound,
            scan_digits(d.take(i - lo), bound as nat, overflow) == Ok::<nat, NumberError>(
                acc as nat,
            ),
        decreases s.len() - i,
    {
        let c = s[i];
        let ghost pre = d.take(i - lo + 1);
        assert(pre.drop_last() =~= d.take(i - lo));
        assert(pre.last() == c);
        if !('0' <= c && c <= '9') {
            proof {
                lemma_scan_err_stays(d, i - lo + 1, bound as nat, overflow);
            }
            return Err(NumberError::InvalidDigit);
        }
        let dv = (c as u32 - '0' as u32) as u64;
        assert(dv == digit_value(c));
        if acc * 10 + dv > bound {
            proof {
                lemma_scan_err_stays(d, i - lo + 1, bound as nat, overflow);
            }
            return Err(overflow);
        }
        acc = acc * 10 + dv;
        i = i + 1;
    }
    assert(d.take(i - lo) =~= d);
    Ok(acc)
}

/// `s` parsed as a `u32`, as `str::parse::<u32>` does.
pub fn parse_u32(s: &[char]) -> (r: Result<u32, NumberError>)
    ensures
        match r {
            Ok(v) => parse_u32_spec(s@) == Ok::<nat, NumberError>(v as nat),
            Err(e) => parse_u32_spec(s@) == Err::<nat, NumberError>(e),
        },
{
    if s.len() == 0 {
        return Err(NumberError::Empty);
    }
    if s.len() == 1 && (s[0] == '+' || s[0] == '-') {
        return Err(NumberError::InvalidDigit);
    }
    let lo: usize = if s[0] == '+' {
        1
    } else {
        0
    };
    assert(s@.skip(0) =~= s@);
    assert(s@.skip(1) =~= s@.drop_first());
    match scan_digits_exec(s, lo, 0xffff_ffff, NumberError::PosOverflow) {
        Ok(v) => Ok(v as u32),
        Err(e) => Err(e),
    }
}

/// `s` parsed as an `i32`, as `str::parse::<i32>` does.
pub fn parse_i32(s: &[char]) -> (r: Result<i32, NumberError>)
    ensures
        match r {
            Ok(v) => parse_i32_spec(s@) == Ok::<int, NumberError>(v as int),
            Err(e) => parse_i32_spec(s@) == Err::<int, NumberError>(e),
        },
{
    if s.len() == 0 {
        return Err(NumberError::Empty);
    }
    if s.len() == 1 && (s[0] == '+' || s[0] == '-') {
        return Err(NumberError::InvalidDigit);
    }
    assert(s@.skip(0) =~= s@);
    assert(s@.skip(1) =~= s@.drop_first());
    if s[0] == '-' {
        match scan_digits_exec(s, 1, 0x8000_0000, NumberError::NegOverflow) {
            Ok(m) => {
                if m == 0x8000_0000 {
                    Ok(i32::MIN)
                } else {
                    Ok(-(m as i32))
                }
            },
            Err(e) => Err(e),
        }
    } else {
        let lo: usize = if s[0] == '+' {
            1
        } else {
            0
        };
        match scan_digits_exec(s, lo, 0x7fff_ffff, NumberError::PosOverflow) {
            Ok(m) => Ok(m as i32),
            Err(e) => Err(e),
        }
    }
}

/// Appends `c` to `s`.
#[verifier::external_body]
pub fn push_char(s: &mut String, c: char)
    ensures
        final(s)@ == old(s)@.push(c),
{
    s.push(c);
}

/// Appends the decimal writing of `n` to `s`.
pub fn push_decimal(s: &mut String, n: u64)
    ensures
        final(s)@ == old(s)@ + decimal(n as nat),
    decreases n,
{
    if n >= 10 {
        push_decimal(s, n / 10);
    }
    let d = (n % 10) as u8;
    let c = (d + 48u8) as char;
    assert(c == digit_char((n % 10) as nat));
    push_char(s, c);
}

/// Appends the decimal writing of the signed `n` to `s`.
pub fn push_signed_decimal(s: &mut String, n: i64)
    ensures
        final(s)@ == old(s)@ + signed_decimal(n as int),
{
    if n < 0 {
        push_char(s, '-');
        let m: u64 = if n == i64::MIN {
            0x8000_0000_0000_0000
        } else {
            (-n) as u64
        };
        push_decimal(s, m);
        assert(final(s)@ =~= old(s)@ + signed_decimal(n as int));
    } else {
        push_decimal(s, n as u64);
    }
}

/// The decimal writing of `n` as a new string.
pub fn decimal_string(n: u64) -> (s: String)
    ensures
        s@ == decimal(n as nat),
{
    let mut s = String::new();
    push_decimal(&mut s, n);
    assert(s@ =~= decimal(n as nat));
    s
}

proof fn lemma_digit_char(d: nat)
    requires
        d < 10,
    ensures
        is_digit(digit_char(d)),
        digit_value(digit_char(d)) == d,
{
    assert(digit_char(d) as nat == d + 48);
}

/// A decimal writing is a nonempty run of digits.
pub proof fn lemma_decimal_is_digits(n: nat)
    ensures
        decimal(n).len() >= 1,
        forall|i: int| 0 <= i < decimal(n).len() ==> is_digit(#[trigger] decimal(n)[i]),
    decreases n,
{
    if n >= 10 {
        lemma_decimal_is_digits(n / 10);
        let d = decimal(n / 10);
        assert forall|i: int| 0 <= i < decimal(n).len() implies is_digit(#[trigger] decimal(n)[i]) by {
            if i < d.len() {
                assert(decimal(n)[i] == d[i]);
            }
        }
    }
}

/// Reading the digits of `n` gives `n` back.
pub proof fn lemma_scan_decimal(n: nat, bound: nat, overflow: NumberError)
    requires
        n <= bound,
    ensures
        scan_digits(decimal(n), bound, overflow) == Ok::<nat, NumberError>(n),
    decreases n,
{
    lemma_digit_char(n % 10);
    let s = decimal(n);
    if n < 10 {
        assert(s.drop_last() =~= Seq::<char>::empty());
        assert(scan_digits(s.drop_last(), bound, overflow) == Ok::<nat, NumberError>(0));
        assert(s.last() == digit_char(n % 10));
    } else {
        lemma_scan_decimal(n / 10, bound, overflow);
        assert(s.drop_last() =~= decimal(n / 10));
        assert(s.last() == digit_char(n % 10));
        assert((n / 10) * 10 + n % 10 == n);
    }
}

/// A `u32` written in decimal parses back to itself.
pub proof fn lemma_parse_u32_decimal(n: u32)
    ensures
        parse_u32_spec(decimal(n as nat)) == Ok::<nat, NumberError>(n as nat),
{
    lemma_decimal_is_digits(n as nat);
    lemma_scan_decimal(n as nat, 0xffff_ffff, NumberError::PosOverflow);
    let s = decimal(n as nat);
    assert(is_digit(s[0]));
}

/// An `i32` written in decimal parses back to itself.
pub proof fn lemma_parse_i32_signed_decimal(x: i32)
    ensures
        parse_i32_spec(signed_decimal(x as int)) == Ok::<int, NumberError>(x as int),
{
    if x < 0 {
        let m = (-x) as nat;
        lemma_decimal_is_digits(m);
        lemma_scan_decimal(m, 0x8000_0000, NumberError::NegOverflow);
        let s = signed_decimal(x as int);
        assert(s.drop_first() =~= decimal(m));
    } else {
        lemma_decimal_is_digits(x as nat);
        lemma_scan_decimal(x as nat, 0x7fff_ffff, NumberError::PosOverflow);
        let s = decimal(x as nat);
        assert(is_digit(s[0]));
    }
}

} // verus!
