//! Decimal text of integers, and the port numbers found in an SSH origin.

use vstd::prelude::*;

verus! {

/// The character of one decimal digit.
pub open spec fn digit_char(d: nat) -> char {
    if d == 0 { '0' }
    else if d == 1 { '1' }
    else if d == 2 { '2' }
    else if d == 3 { '3' }
    else if d == 4 { '4' }
    else if d == 5 { '5' }
    else if d == 6 { '6' }
    else if d == 7 { '7' }
    else if d == 8 { '8' }
    else { '9' }
}

/// The decimal digits of `n`, most significant first, without leading zeros.
pub open spec fn digits(n: nat) -> Seq<char>
    decreases n,
{
    if n < 10 {
        seq![digit_char(n)]
    } else {
        digits(n / 10).push(digit_char(n % 10))
    }
}

/// The decimal text of a signed integer: a minus sign before negative values.
pub open spec fn decimal(v: int) -> Seq<char> {
    if v < 0 {
        seq!['-'] + digits((-v) as nat)
    } else {
        digits(v as nat)
    }
}

fn digit_str(d: u64) -> (r: &'static str)
    requires
        d < 10,
    ensures
        r@ == seq![digit_char(d as nat)],
{
    proof {
        reveal_strlit("0");
        reveal_strlit("1");
        reveal_strlit("2");
        reveal_strlit("3");
        reveal_strlit("4");
        reveal_strlit("5");
        reveal_strlit("6");
        reveal_strlit("7");
        reveal_strlit("8");
        reveal_strlit("9");
    }
    if d == 0 { "0" }
    else if d == 1 { "1" }
    else if d == 2 { "2" }
    else if d == 3 { "3" }
    else if d == 4 { "4" }
    else if d == 5 { "5" }
    else if d == 6 { "6" }
    else if d == 7 { "7" }
    else if d == 8 { "8" }
    else { "9" }
}

/// Appends the decimal digits of `n` to `out`.
pub fn push_digits(out: &mut String, n: u64)
    ensures
        final(out)@ == old(out)@ + digits(n as nat),
    decreases n,
{
    if n >= 10 {
        push_digits(out, n / 10);
    }
    let d = digit_str(n % 10);
    out.append(d);
    assert(final(out)@ =~= old(out)@ + digits(n as nat));
}

/// The decimal text of an unsigned integer.
pub fn unsigned_text(n: u64) -> (r: String)
    ensures
        r@ == digits(n as nat),
{
    let mut out = String::new();
    push_digits(&mut out, n);
    assert(out@ =~= digits(n as nat));
    out
}

/// The decimal text of a signed integer.
pub fn signed_text(v: i32) -> (r: String)
    ensures
        r@ == decimal(v as int),
{
    let mut out = String::new();
    if v < 0 {
        out.append("-");
        let m: i64 = -(v as i64);
        push_digits(&mut out, m as u64);
    } else {
        push_digits(&mut out, v as u64);
    }
    proof { reveal_strlit("-"); }
    assert(out@ =~= decimal(v as int));
    out
}

/// Why a text is not a port number.
#[derive(Clone, Copy, Debug, PartialEq, Eq)]
pub enum PortError {
    Empty,
    InvalidDigit,
    TooLarge,
}

/// The message shown for each kind of bad port number.
pub open spec fn port_error_message(e: PortError) -> Seq<char> {
    match e {
        PortError::Empty => "cannot parse integer from empty string"@,
        PortError::InvalidDigit => "invalid digit found in string"@,
        PortError::TooLarge => "number too large to fit in target type"@,
    }
}

pub fn port_error_text(e: PortError) -> (r: String)
    ensures
        r@ == port_error_message(e),
{
    match e {
        PortError::Empty => String::from_str("cannot parse integer from empty string"),
        PortError::InvalidDigit => String::from_str("invalid digit found in string"),
        PortError::TooLarge => String::from_str("number too large to fit in target type"),
    }
}

pub open spec fn is_digit(c: char) -> bool {
    '0' <= c && c <= '9'
}

pub open spec fn digit_value(c: char) -> nat {
    (c as int - '0' as int) as nat
}

/// Reads the digits of `d` from the left onto `acc`: the first character that is
/// no digit, or the first digit that takes the value past 65535, decides the error.
pub open spec fn scan_digits(d: Seq<char>, acc: nat) -> Result<nat, PortError>
    decreases d.len(),
{
    if d.len() == 0 {
        Ok(acc)
    } else if !is_digit(d[0]) {
        Err(PortError::InvalidDigit)
    } else if acc * 10 + digit_value(d[0]) > 65535 {
        Err(PortError::TooLarge)
    } else {
        scan_digits(d.drop_first(), acc * 10 + digit_value(d[0]))
    }
}

/// A port number written as an optional `+` and then decimal digits.
pub open spec fn port_value(s: Seq<char>) -> Result<nat, PortError> {
    if s.len() == 0 {
        Err(PortError::Empty)
    } else if s[0] == '+' {
        if s.len() == 1 {
            Err(PortError::InvalidDigit)
        } else {
            scan_digits(s.drop_first(), 0)
        }
    } else {
        scan_digits(s, 0)
    }
}

/// Parses a port number.
pub fn parse_port(s: &str) -> (r: Result<u16, PortError>)
    ensures
        match (r, port_value(s@)) {
            (Ok(p), Ok(v)) => p as nat == v,
            (Err(e), Err(f)) => e == f,
            _ => false,
        },
{
    let n = s.unicode_len();
    if n == 0 {
        return Err(PortError::Empty);
    }
    let mut i: usize = 0;
    if s.get_char(0) == '+' {
        if n == 1 {
            return Err(PortError::InvalidDigit);
        }
        i = 1;
    }
    proof {
        assert(i == 1 ==> s@.skip(i as int) =~= s@.drop_first());
        assert(i == 0 ==> s@.skip(i as int) =~= s@);
    }
    let mut acc: u32 = 0;
    while i < n
        invariant
            n == s@.len(),
            i <= n,
            acc <= 65535,
            port_value(s@) == scan_digits(s@.skip(i as int), acc as nat),
        decreases n - i,
    {
        let c = s.get_char(i);
        let ghost rest = s@.skip(i as int);
        assert(rest[0] == c);
        assert(rest.drop_first() =~= s@.skip(i + 1));
        if !('0' <= c && c <= '9') {
            return Err(PortError::InvalidDigit);
        }
        let v: u32 = acc * 10 + (c as u32 - '0' as u32);
        if v > 65535 {
            return Err(PortError::TooLarge);
        }
        acc = v;
        i += 1;
    }
    assert(s@.skip(n as int).len() == 0);
    Ok(acc as u16)
}

} // verus!
