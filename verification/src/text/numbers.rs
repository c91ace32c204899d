//! Integers as decimal text, and back.

use vstd::prelude::*;

use crate::text::chars::ascii_digit;
use crate::text::strings::{chars_of, concat};

verus! {

/// The decimal digit of `d`.
pub open spec fn digit_char(d: int) -> char {
    ('0' as int + d) as char
}

/// `n` in decimal, without leading zeros.
pub open spec fn decimal(n: nat) -> Seq<char>
    decreases n,
{
    if n < 10 {
        seq![digit_char(n as int)]
    } else {
        decimal(n / 10).push(digit_char((n % 10) as int))
    }
}

/// `i` in decimal, with a minus sign where it is negative.
pub open spec fn signed_decimal(i: int) -> Seq<char> {
    if i < 0 {
        "-"@ + decimal((-i) as nat)
    } else {
        decimal(i as nat)
    }
}

fn digit_of(d: u64) -> (r: char)
    requires
        d < 10,
    ensures
        r == digit_char(d as int),
{
    if d == 0 {
        '0'
    } else if d == 1 {
        '1'
    } else if d == 2 {
        '2'
    } else if d == 3 {
        '3'
    } else if d == 4 {
        '4'
    } else if d == 5 {
        '5'
    } else if d == 6 {
        '6'
    } else if d == 7 {
        '7'
    } else if d == 8 {
        '8'
    } else {
        '9'
    }
}

/// `n` in decimal.
pub fn decimal_text(n: u64) -> (r: String)
    ensures
        r@ == decimal(n as nat),
    decreases n,
{
    let mut text = if n < 10 { String::new() } else { decimal_text(n / 10) };
    text.push(digit_of(n % 10));
    assert(text@ =~= decimal(n as nat));
    text
}

/// `i` in decimal.
pub fn signed_decimal_text(i: i64) -> (r: String)
    ensures
        r@ == signed_decimal(i as int),
{
    if i < 0 {
        let magnitude: u64 = (-(i as i128)) as u64;
        concat("-", decimal_text(magnitude).as_str())
    } else {
        decimal_text(i as u64)
    }
}

/// Why a text is not a number.
#[derive(Debug, Clone, Copy, PartialEq, Eq, Structural)]
pub enum IntError {
    /// The text is empty.
    Empty,
    /// A character is no digit.
    InvalidDigit,
    /// The number is too large.
    PosOverflow,
}

/// The text of a number error.
pub open spec fn int_error_text(e: IntError) -> Seq<char> {
    match e {
        IntError::Empty => "cannot parse integer from empty string"@,
        IntError::InvalidDigit => "invalid digit found in string"@,
        IntError::PosOverflow => "number too large to fit in target type"@,
    }
}

impl IntError {
    /// The text of the error.
    pub fn message(&self) -> (r: String)
        ensures
            r@ == int_error_text(*self),
    {
        match self {
            IntError::Empty => "cannot parse integer from empty string".to_owned(),
            IntError::InvalidDigit => "invalid digit found in string".to_owned(),
            IntError::PosOverflow => "number too large to fit in target type".to_owned(),
        }
    }
}

/// The value of a run of digits, or what its first faulty character is.
pub open spec fn digits_value(s: Seq<char>) -> Result<int, IntError>
    decreases s.len(),
{
    if s.len() == 0 {
        Ok(0)
    } else {
        match digits_value(s.drop_last()) {
            Err(e) => Err(e),
            Ok(v) => if !ascii_digit(s.last()) {
                Err(IntError::InvalidDigit)
            } else {
                let w = v * 10 + (s.last() as int - '0' as int);
                if w > u32::MAX {
                    Err(IntError::PosOverflow)
                } else {
                    Ok(w)
                }
            },
        }
    }
}

/// The 32-bit number that `s` writes: digits, with a plus sign before them
/// allowed.
pub open spec fn parsed_u32(s: Seq<char>) -> Result<int, IntError> {
    if s.len() == 0 {
        Err(IntError::Empty)
    } else if s.len() == 1 && (s[0] == '+' || s[0] == '-') {
        Err(IntError::InvalidDigit)
    } else if s[0] == '+' {
        digits_value(s.skip(1))
    } else {
        digits_value(s)
    }
}

/// A fault in a run of digits stays whatever follows.
proof fn lemma_digits_fault(s: Seq<char>, k: int)
    requires
        0 <= k <= s.len(),
        digits_value(s.take(k)) is Err,
    ensures
        digits_value(s) == digits_value(s.take(k)),
    decreases s.len(),
{
    if k == s.len() {
        assert(s.take(k) == s);
    } else {
        assert(s.drop_last().take(k) == s.take(k));
        lemma_digits_fault(s.drop_last(), k);
    }
}

/// A number that is read fits in 32 bits.
pub proof fn lemma_parsed_fits(s: Seq<char>)
    ensures
        parsed_u32(s) matches Ok(v) ==> 0 <= v <= u32::MAX,
{
    lemma_digits_fit(s);
    lemma_digits_fit(s.skip(1));
}

proof fn lemma_digits_fit(s: Seq<char>)
    ensures
        digits_value(s) matches Ok(v) ==> 0 <= v <= u32::MAX,
    decreases s.len(),
{
    if s.len() > 0 {
        lemma_digits_fit(s.drop_last());
    }
}

fn digit_value(c: char) -> (r: Option<u32>)
    ensures
        r is Some == ascii_digit(c),
        r is Some ==> r->0 == c as int - '0' as int,
        r is Some ==> r->0 < 10,
{
    if '0' <= c && c <= '9' {
        Some(c as u32 - '0' as u32)
    } else {
        None
    }
}

/// Reads a 32-bit number.
pub fn parse_u32(s: &str) -> (r: Result<u32, IntError>)
    ensures
        match parsed_u32(s@) {
            Ok(v) => r is Ok && r->Ok_0 == v,
            Err(e) => r is Err && r->Err_0 == e,
        },
{
    let chars = chars_of(s);
    let len: usize = chars.len();
    if len == 0 {
        return Err(IntError::Empty);
    }
    if len == 1 && (chars[0] == '+' || chars[0] == '-') {
        return Err(IntError::InvalidDigit);
    }
    let start: usize = if chars[0] == '+' { 1 } else { 0 };
    let ghost digits = s@.skip(start as int);
    assert(s@.skip(0) == s@);
    let mut i: usize = start;
    let mut value: u32 = 0;
    assert(digits.take(0).len() == 0);
    while i < len
        invariant
            start <= i <= len,
            start <= 1,
            len == chars@.len(),
            chars@ == s@,
            digits == s@.skip(start as int),
            parsed_u32(s@) == digits_value(digits),
            digits_value(digits.take(i - start)) == Ok::<int, IntError>(value as int),
        decreases len - i,
    {
        let ghost next = digits.take(i + 1 - start);
        assert(next.drop_last() == digits.take(i - start));
        assert(next.last() == s@[i as int]);
        match digit_value(chars[i]) {
            None => {
                proof {
                    lemma_digits_fault(digits, i + 1 - start);
                }
                return Err(IntError::InvalidDigit);
            },
            Some(d) => {
                let wide: u64 = value as u64 * 10 + d as u64;
                if wide > u32::MAX as u64 {
                    proof {
                        lemma_digits_fault(digits, i + 1 - start);
                    }
                    return Err(IntError::PosOverflow);
                }
                value = wide as u32;
            },
        }
        i += 1;
    }
    assert(digits.take(len - start) == digits);
    Ok(value)
}

/// Reading what was written gives the number back.
pub proof fn law_decimal_reads_back(n: nat)
    requires
        n <= u32::MAX,
    ensures
        parsed_u32(decimal(n)) == Ok::<int, IntError>(n as int),
{
    lemma_decimal_digits(n);
}

proof fn lemma_decimal_digits(n: nat)
    requires
        n <= u32::MAX,
    ensures
        decimal(n).len() > 0,
        ascii_digit(decimal(n)[0]),
        digits_value(decimal(n)) == Ok::<int, IntError>(n as int),
    decreases n,
{
    let d = digit_char((n % 10) as int);
    if n >= 10 {
        lemma_decimal_digits(n / 10);
        assert(decimal(n).drop_last() == decimal(n / 10));
        assert(decimal(n).last() == d);
    } else {
        assert(decimal(n).drop_last().len() == 0);
        assert(digits_value(decimal(n).drop_last()) == Ok::<int, IntError>(0));
    }
}

/// A number is written in digits alone.
pub proof fn lemma_decimal_in_digits(n: nat)
    ensures
        decimal(n).len() > 0,
        forall|i: int| 0 <= i < decimal(n).len() ==> ascii_digit(#[trigger] decimal(n)[i]),
    decreases n,
{
    if n >= 10 {
        lemma_decimal_in_digits(n / 10);
        assert forall|i: int| 0 <= i < decimal(n).len() implies ascii_digit(
            #[trigger] decimal(n)[i],
        ) by {
            if i < decimal(n / 10).len() {
                assert(decimal(n)[i] == decimal(n / 10)[i]);
            }
        }
    }
}

} // verus!
