//! Rendering numbers as decimal character sequences.
//!
//! The machine prints signed decimal numbers (`print_num`) and builds the
//! status line from the current globals; both need a verified route from an
//! integer to its digit characters.

use vstd::prelude::*;

verus! {

/// The character for the decimal digit `d`.
pub open spec fn digit_char(d: int) -> char {
    ((48 + d) as u8) as char
}

/// The decimal digit characters of the non-negative integer `n`, most
/// significant first.
pub open spec fn dec_digits(n: int) -> Seq<char>
    decreases n,
{
    if n < 10 {
        seq![digit_char(n)]
    } else {
        dec_digits(n / 10) + seq![digit_char(n % 10)]
    }
}

/// The decimal rendering of the signed value `n`: a minus sign when negative,
/// then the digits of its absolute value.
pub open spec fn dec_signed(n: int) -> Seq<char> {
    if n < 0 {
        seq!['-'] + dec_digits(-n)
    } else {
        dec_digits(n)
    }
}

/// Appends the decimal digits of `n` to `out`.
pub fn push_u16_decimal(out: &mut Vec<char>, n: u16)
    ensures
        final(out)@ == old(out)@ + dec_digits(n as int),
    decreases n,
{
    if n < 10 {
        out.push((48 + n as u8) as char);
        assert(final(out)@ == old(out)@ + dec_digits(n as int));
    } else {
        push_u16_decimal(out, n / 10);
        out.push((48 + (n % 10) as u8) as char);
        assert(final(out)@ == old(out)@ + dec_digits(n as int));
    }
}

/// Appends the signed decimal rendering of `n` to `out`.
pub fn push_i16_decimal(out: &mut Vec<char>, n: i16)
    ensures
        final(out)@ == old(out)@ + dec_signed(n as int),
{
    if n < 0 {
        out.push('-');
        let magnitude: u16 = if n == i16::MIN {
            32768
        } else {
            (-n) as u16
        };
        assert(magnitude == -(n as int));
        push_u16_decimal(out, magnitude);
    } else {
        push_u16_decimal(out, n as u16);
    }
}

} // verus!
