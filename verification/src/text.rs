//! Text the relay builds: lossy UTF-8 decoding of output chunks and decimal
//! rendering of a termination status.

use vstd::prelude::*;

verus! {

/// The characters that lossy UTF-8 decoding yields for `bytes`. The value is
/// left unnamed: it depends on the bytes alone, valid sequences decode to
/// their characters and invalid ones to replacement characters.
pub uninterp spec fn lossy_decode(bytes: Seq<u8>) -> Seq<char>;

/// Relies on `String::from_utf8_lossy` of std: the result is a pure function
/// of the bytes, and the conversion never fails (invalid UTF-8 sequences are
/// replaced with a substitute character).
#[verifier::external_body]
pub(crate) fn decode_lossy(bytes: &Vec<u8>) -> (text: String)
    ensures
        text@ == lossy_decode(bytes@),
{
    String::from_utf8_lossy(bytes).into_owned()
}

/// The character for one decimal digit.
pub open spec fn decimal_digit(d: int) -> char {
    if d == 0 {
        '0'
    } else if d == 1 {
        '1'
    } else if d == 2 {
        '2'
    } else if d == 3 {
        '3'
    } else if d == 4 {
        '4'
    } else if d == 5 {
        '5'
    } else if d == 6 {
        '6'
    } else if d == 7 {
        '7'
    } else if d == 8 {
        '8'
    } else {
        '9'
    }
}

/// The decimal digits of `n`, most significant first, with no leading zero
/// except for `n == 0` itself.
pub open spec fn decimal_of_nat(n: nat) -> Seq<char>
    decreases n,
{
    if n < 10 {
        seq![decimal_digit(n as int)]
    } else {
        decimal_of_nat(n / 10).push(decimal_digit((n % 10) as int))
    }
}

/// The decimal rendering of a signed value: a minus sign in front of the
/// digits of its magnitude when it is negative.
pub open spec fn decimal_of_int(v: int) -> Seq<char> {
    if v >= 0 {
        decimal_of_nat(v as nat)
    } else {
        seq!['-'] + decimal_of_nat((-v) as nat)
    }
}

/// The one-character string for a decimal digit.
fn digit_str(d: u32) -> (s: &'static str)
    requires
        d < 10,
    ensures
        s@ == seq![decimal_digit(d as int)],
{
    proof {
        reveal_strlit("0");
        reveal_strlit("1");
        reveal_strlit("2");
        reveal_strlit("3");
        reveal_strlit("4");
        reveal_strlit("5");
        reveal_strlit("6");
        reveal_strlit("7");
        reveal_strlit("8");
        reveal_strlit("9");
    }
    match d {
        0 => "0",
        1 => "1",
        2 => "2",
        3 => "3",
        4 => "4",
        5 => "5",
        6 => "6",
        7 => "7",
        8 => "8",
        _ => "9",
    }
}

/// Renders an unsigned value in decimal.
pub fn u32_decimal(n: u32) -> (s: String)
    ensures
        s@ == decimal_of_nat(n as nat),
    decreases n,
{
    if n < 10 {
        String::from_str(digit_str(n))
    } else {
        let mut s = u32_decimal(n / 10);
        s.append(digit_str(n % 10));
        proof {
            assert(s@ =~= decimal_of_nat(n as nat));
        }
        s
    }
}

/// Renders a signed value in decimal, as the termination record needs it.
pub fn i32_decimal(v: i32) -> (s: String)
    ensures
        s@ == decimal_of_int(v as int),
{
    if v >= 0 {
        u32_decimal(v as u32)
    } else {
        let magnitude: u32 = (-(v as i64)) as u32;
        let mut s = String::from_str("-");
        s.append(u32_decimal(magnitude).as_str());
        proof {
            reveal_strlit("-");
            assert(s@ =~= decimal_of_int(v as int));
        }
        s
    }
}

} // verus!
