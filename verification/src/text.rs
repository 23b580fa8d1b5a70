//! Numbers written as text.

use vstd::prelude::*;
use vstd::string::{StrSliceExecFns, StringExecFns};

verus! {

/// The upper case hexadecimal digit of `d`.
pub open spec fn digit(d: nat) -> char {
    "0123456789ABCDEF"@[d as int]
}

/// `n` in decimal.
pub open spec fn decimal(n: nat) -> Seq<char>
    decreases n,
{
    if n < 10 {
        seq![digit(n)]
    } else {
        decimal(n / 10).push(digit(n % 10))
    }
}

/// `n` in decimal, with a minus sign where it is negative.
pub open spec fn signed_decimal(n: int) -> Seq<char> {
    if n < 0 {
        seq!['-'] + decimal((-n) as nat)
    } else {
        decimal(n as nat)
    }
}

/// The two hexadecimal digits of a byte.
pub open spec fn hex2(b: u8) -> Seq<char> {
    seq![digit(b as nat / 16), digit(b as nat % 16)]
}

/// The four hexadecimal digits of a 16-bit number.
pub open spec fn hex4(n: u16) -> Seq<char> {
    hex2((n / 256) as u8) + hex2((n % 256) as u8)
}

/// Appends the digit `d`.
pub fn push_digit(s: &mut String, d: u8)
    requires
        d < 16,
    ensures
        final(s)@ == old(s)@.push(digit(d as nat)),
{
    let digits = "0123456789ABCDEF";
    proof {
        reveal_strlit("0123456789ABCDEF");
    }
    s.append(digits.substring_ascii(d as usize, d as usize + 1));
}

/// Appends `n` in decimal.
pub fn push_decimal(s: &mut String, n: u128)
    ensures
        final(s)@ == old(s)@ + decimal(n as nat),
    decreases n,
{
    if n >= 10 {
        push_decimal(s, n / 10);
    }
    push_digit(s, (n % 10) as u8);
}

/// Appends `n` in decimal, with its sign.
pub fn push_signed(s: &mut String, n: i128)
    ensures
        final(s)@ == old(s)@ + signed_decimal(n as int),
{
    if n < 0 {
        proof {
            reveal_strlit("-");
        }
        s.append("-");
        push_decimal(s, (-(n + 1)) as u128 + 1);
    } else {
        push_decimal(s, n as u128);
    }
}

/// Appends the two hexadecimal digits of a byte.
pub fn push_hex2(s: &mut String, b: u8)
    ensures
        final(s)@ == old(s)@ + hex2(b),
{
    push_digit(s, b / 16);
    push_digit(s, b % 16);
}

/// Appends the four hexadecimal digits of a 16-bit number.
pub fn push_hex4(s: &mut String, n: u16)
    ensures
        final(s)@ == old(s)@ + hex4(n),
{
    push_hex2(s, (n / 256) as u8);
    push_hex2(s, (n % 256) as u8);
}

} // verus!
