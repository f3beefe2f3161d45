//! Decimal integers: reading them from text and writing them to it.

use vstd::prelude::*;

verus! {

/// Why a text is not an integer of the wanted type.
#[derive(Clone, Copy, Debug, PartialEq, Eq, Structural)]
pub enum IntFault {
    /// There are no characters at all.
    Empty,
    /// A character is not a digit, or only a sign is there.
    InvalidDigit,
    /// The number exceeds the largest value of the type.
    TooLarge,
    /// The number is below the smallest value of the type.
    TooSmall,
}

impl IntFault {
    /// The sentence that describes the fault.
    pub open spec fn spec_message(self) -> Seq<char> {
        match self {
            IntFault::Empty => "cannot parse integer from empty string"@,
            IntFault::InvalidDigit => "invalid digit found in string"@,
            IntFault::TooLarge => "number too large to fit in target type"@,
            IntFault::TooSmall => "number too small to fit in target type"@,
        }
    }

    /// Gives [`Self::spec_message`].
    pub fn message(self) -> (r: &'static str)
        ensures
            r@ == self.spec_message(),
    {
        match self {
            IntFault::Empty => "cannot parse integer from empty string",
            IntFault::InvalidDigit => "invalid digit found in string",
            IntFault::TooLarge => "number too large to fit in target type",
            IntFault::TooSmall => "number too small to fit in target type",
        }
    }
}

/// Whether `c` is one of the ten decimal digits.
pub open spec fn is_digit(c: char) -> bool {
    '0' <= c <= '9'
}

/// The value of a decimal digit.
pub open spec fn digit_value(c: char) -> int {
    c as int - '0' as int
}

/// Reads the digits `s` from left to right on top of the value `acc`, away from
/// zero in the direction of the sign. The first character that is not a digit,
/// or that takes the value out of `lo..=hi`, is the one reported.
pub open spec fn read_digits(s: Seq<char>, acc: int, negative: bool, lo: int, hi: int) -> Result<
    int,
    IntFault,
>
    decreases s.len(),
{
    if s.len() == 0 {
        Ok(acc)
    } else if !is_digit(s[0]) {
        Err(IntFault::InvalidDigit)
    } else {
        let next = if negative {
            acc * 10 - digit_value(s[0])
        } else {
            acc * 10 + digit_value(s[0])
        };
        if next > hi {
            Err(IntFault::TooLarge)
        } else if next < lo {
            Err(IntFault::TooSmall)
        } else {
            read_digits(s.skip(1), next, negative, lo, hi)
        }
    }
}

/// The integer in `lo..=hi` that `s` writes: an optional sign (a minus only
/// where negative values exist) and one or more digits.
pub open spec fn parse_int(s: Seq<char>, lo: int, hi: int) -> Result<int, IntFault> {
    if s.len() == 0 {
        Err(IntFault::Empty)
    } else if s.len() == 1 && (s[0] == '+' || s[0] == '-') {
        Err(IntFault::InvalidDigit)
    } else if s[0] == '-' && lo < 0 {
        read_digits(s.skip(1), 0, true, lo, hi)
    } else if s[0] == '+' {
        read_digits(s.skip(1), 0, false, lo, hi)
    } else {
        read_digits(s, 0, false, lo, hi)
    }
}

/// Reads an `i64`; the fault otherwise.
pub fn parse_i64(s: &[char]) -> (r: Result<i64, IntFault>)
    ensures
        match r {
            Ok(n) => parse_int(s@, i64::MIN as int, i64::MAX as int) == Ok::<int, IntFault>(
                n as int,
            ),
            Err(e) => parse_int(s@, i64::MIN as int, i64::MAX as int) == Err::<int, IntFault>(e),
        },
{
    if s.len() == 0 {
        return Err(IntFault::Empty);
    }
    if s.len() == 1 && (s[0] == '+' || s[0] == '-') {
        return Err(IntFault::InvalidDigit);
    }
    let negative = s[0] == '-';
    let mut i: usize = if negative || s[0] == '+' {
        1
    } else {
        0
    };
    let mut acc: i64 = 0;
    let ghost lo = i64::MIN as int;
    let ghost hi = i64::MAX as int;
    assert(s@.skip(0) =~= s@);
    while i < s.len()
        invariant
            i <= s@.len(),
            lo == i64::MIN as int,
            hi == i64::MAX as int,
            parse_int(s@, lo, hi) == read_digits(s@.skip(i as int), acc as int, negative, lo, hi),
        decreases s@.len() - i,
    {
        let c = s[i];
        assert(s@.skip(i as int)[0] == c);
        assert(s@.skip(i as int).skip(1) =~= s@.skip(i + 1));
        if !('0' <= c && c <= '9') {
            return Err(IntFault::InvalidDigit);
        }
        let d: i128 = (c as u32 - '0' as u32) as i128;
        let next: i128 = if negative {
            acc as i128 * 10 - d
        } else {
            acc as i128 * 10 + d
        };
        if next > i64::MAX as i128 {
            return Err(IntFault::TooLarge);
        }
        if next < i64::MIN as i128 {
            return Err(IntFault::TooSmall);
        }
        acc = next as i64;
        i = i + 1;
    }
    Ok(acc)
}

/// Reads a `usize`; the fault otherwise.
pub fn parse_usize(s: &[char]) -> (r: Result<usize, IntFault>)
    ensures
        match r {
            Ok(n) => parse_int(s@, 0, usize::MAX as int) == Ok::<int, IntFault>(n as int),
            Err(e) => parse_int(s@, 0, usize::MAX as int) == Err::<int, IntFault>(e),
        },
{
    if s.len() == 0 {
        return Err(IntFault::Empty);
    }
    if s.len() == 1 && (s[0] == '+' || s[0] == '-') {
        return Err(IntFault::InvalidDigit);
    }
    let mut i: usize = if s[0] == '+' {
        1
    } else {
        0
    };
    let mut acc: usize = 0;
    let ghost hi = usize::MAX as int;
    assert(s@.skip(0) =~= s@);
    while i < s.len()
        invariant
            i <= s@.len(),
            hi == usize::MAX as int,
            parse_int(s@, 0, hi) == read_digits(s@.skip(i as int), acc as int, false, 0, hi),
        decreases s@.len() - i,
    {
        let c = s[i];
        assert(s@.skip(i as int)[0] == c);
        assert(s@.skip(i as int).skip(1) =~= s@.skip(i + 1));
        if !('0' <= c && c <= '9') {
            return Err(IntFault::InvalidDigit);
        }
        let d: u128 = (c as u32 - '0' as u32) as u128;
        let next: u128 = acc as u128 * 10 + d;
        if next > usize::MAX as u128 {
            return Err(IntFault::TooLarge);
        }
        acc = next as usize;
        i = i + 1;
    }
    Ok(acc)
}

/// The digit that stands for a value below ten.
pub open spec fn digit_char(d: int) -> char {
    ('0' as int + d) as char
}

/// The decimal digits of a natural number, without leading zeros.
pub open spec fn digits(n: nat) -> Seq<char>
    decreases n,
{
    if n < 10 {
        seq![digit_char(n as int)]
    } else {
        digits(n / 10).push(digit_char((n % 10) as int))
    }
}

/// The decimal form of an integer: its digits, after a minus where it is
/// negative.
pub open spec fn decimal(n: int) -> Seq<char> {
    if n < 0 {
        seq!['-'] + digits((-n) as nat)
    } else {
        digits(n as nat)
    }
}

fn digit_text(d: u8) -> (r: char)
    requires
        d < 10,
    ensures
        r == digit_char(d as int),
{
    (48u8 + d) as char
}

fn append_digits(out: &mut String, n: u128)
    ensures
        final(out)@ == old(out)@ + digits(n as nat),
    decreases n,
{
    if n >= 10 {
        append_digits(out, n / 10);
    }
    let ghost before = out@;
    let d: u8 = (n % 10) as u8;
    out.push(digit_text(d));
    proof {
        if n < 10 {
            assert(out@ =~= old(out)@ + digits(n as nat));
        } else {
            assert(before.push(digit_char((n % 10) as int)) =~= old(out)@ + digits(
                (n / 10) as nat,
            ).push(digit_char((n % 10) as int)));
        }
    }
}

/// Writes an unsigned number of any width.
pub fn decimal_u128(n: u128) -> (r: String)
    ensures
        r@ == decimal(n as int),
{
    let mut out = String::new();
    append_digits(&mut out, n);
    assert(out@ =~= decimal(n as int));
    out
}

/// Writes an unsigned number.
pub fn decimal_u64(n: u64) -> (r: String)
    ensures
        r@ == decimal(n as int),
{
    decimal_u128(n as u128)
}

/// Writes a length or an index.
pub fn decimal_usize(n: usize) -> (r: String)
    ensures
        r@ == decimal(n as int),
{
    decimal_u64(n as u64)
}

/// Writes a signed number.
pub fn decimal_i64(n: i64) -> (r: String)
    ensures
        r@ == decimal(n as int),
{
    let mut out = String::new();
    if n < 0 {
        out.push('-');
        append_digits(&mut out, (-(n as i128)) as u128);
        assert(out@ =~= decimal(n as int));
    } else {
        append_digits(&mut out, n as u128);
        assert(out@ =~= decimal(n as int));
    }
    out
}

proof fn lemma_read_digits_range(s: Seq<char>, acc: int, negative: bool, lo: int, hi: int)
    requires
        lo <= acc <= hi,
    ensures
        read_digits(s, acc, negative, lo, hi) matches Ok(n) ==> lo <= n <= hi,
    decreases s.len(),
{
    if s.len() > 0 {
        let next = if negative {
            acc * 10 - digit_value(s[0])
        } else {
            acc * 10 + digit_value(s[0])
        };
        if lo <= next <= hi {
            lemma_read_digits_range(s.skip(1), next, negative, lo, hi);
        }
    }
}

/// A number that is read lies in the range it is read in.
pub proof fn law_parsed_in_range(s: Seq<char>, lo: int, hi: int)
    requires
        lo <= 0 <= hi,
    ensures
        parse_int(s, lo, hi) matches Ok(n) ==> lo <= n <= hi,
{
    lemma_read_digits_range(s, 0, false, lo, hi);
    if s.len() > 0 {
        lemma_read_digits_range(s.skip(1), 0, true, lo, hi);
        lemma_read_digits_range(s.skip(1), 0, false, lo, hi);
    }
}

proof fn lemma_read_digits_concat(
    a: Seq<char>,
    b: Seq<char>,
    acc: int,
    negative: bool,
    lo: int,
    hi: int,
)
    ensures
        read_digits(a + b, acc, negative, lo, hi) == match read_digits(a, acc, negative, lo, hi) {
            Ok(v) => read_digits(b, v, negative, lo, hi),
            Err(e) => Err(e),
        },
    decreases a.len(),
{
    if a.len() == 0 {
        assert(a + b =~= b);
    } else {
        assert((a + b).skip(1) =~= a.skip(1) + b);
        assert((a + b)[0] == a[0]);
        let next = if negative {
            acc * 10 - digit_value(a[0])
        } else {
            acc * 10 + digit_value(a[0])
        };
        lemma_read_digits_concat(a.skip(1), b, next, negative, lo, hi);
    }
}

proof fn lemma_digits_read_back(n: nat, negative: bool, lo: int, hi: int)
    requires
        lo <= 0 <= hi,
        negative ==> lo <= -n,
        !negative ==> n <= hi,
    ensures
        read_digits(digits(n), 0, negative, lo, hi) == Ok::<int, IntFault>(
            if negative {
                -(n as int)
            } else {
                n as int
            },
        ),
        digits(n).len() > 0,
        is_digit(digits(n)[0]),
    decreases n,
{
    reveal_with_fuel(read_digits, 2);
    let last = seq![digit_char((n % 10) as int)];
    if n < 10 {
        assert(digits(n) =~= last);
        assert(last.skip(1) =~= Seq::<char>::empty());
    } else {
        let head = (n / 10) as nat;
        lemma_digits_read_back(head, negative, lo, hi);
        assert(digits(n) =~= digits(head) + last);
        lemma_read_digits_concat(digits(head), last, 0, negative, lo, hi);
        assert(last.skip(1) =~= Seq::<char>::empty());
    }
}

/// Reading the decimal form of a number gives the number back, whatever range
/// around zero it is read in, as long as the number lies in it.
pub proof fn law_decimal_read_back(n: int, lo: int, hi: int)
    requires
        lo <= n <= hi,
        lo <= 0 <= hi,
    ensures
        parse_int(decimal(n), lo, hi) == Ok::<int, IntFault>(n),
{
    if n < 0 {
        lemma_digits_read_back((-n) as nat, true, lo, hi);
        assert(decimal(n).skip(1) =~= digits((-n) as nat));
    } else {
        lemma_digits_read_back(n as nat, false, lo, hi);
    }
}

} // verus!
