//! Conversions and numbers as text.

use vstd::prelude::*;

use crate::laws::channel;
use crate::numeric;
use crate::text;

verus! {

/// Cutting a number to its low bits changes it by a multiple of their range, and leaves it in the
/// signed range; a number in that range stays as it is.
pub proof fn cutting_keeps_the_low_bits(n: int, m: int)
    requires
        m == 0x1_0000 || m == 0x1_0000_0000,
    ensures
        -m <= 2 * numeric::wrap_signed(n, m) < m,
        (n - numeric::wrap_signed(n, m)) % m == 0,
        -m <= 2 * n < m ==> numeric::wrap_signed(n, m) == n,
{
}

/// A number below 2^31 is a screen dimension as it is, and one from there on is negative.
pub proof fn dimensions_are_signed(n: u32)
    ensures
        n < 0x8000_0000 ==> crate::switch::extent(n) == n,
        n >= 0x8000_0000 ==> crate::switch::extent(n) == n - 0x1_0000_0000,
{
}

/// Decimal writing: a number below ten is its digit; any other is what is left without its last
/// digit, and that digit. So no number starts with a zero but zero itself.
pub proof fn decimals_end_in_the_last_digit(n: nat)
    ensures
        text::decimal(n).len() >= 1,
        channel::is_digit(text::decimal(n).last(), (n % 10) as int),
        n < 10 ==> text::decimal(n).len() == 1,
        n >= 10 ==> text::decimal(n).drop_last() == text::decimal(n / 10),
        n >= 1 ==> text::decimal(n)[0] != '0',
    decreases n,
{
    reveal_strlit("0123456789ABCDEF");
    if n >= 10 {
        decimals_end_in_the_last_digit(n / 10);
        assert(text::decimal(n).drop_last() =~= text::decimal(n / 10));
    }
}

/// The number that decimal digits spell.
pub open spec fn spelled(s: Seq<char>) -> int
    decreases s.len(),
{
    if s.len() == 0 {
        0
    } else {
        10 * spelled(s.drop_last()) + (s.last() as int - '0' as int)
    }
}

/// What is written in decimal spells the number, and a negative number has its sign before it.
pub proof fn decimals_spell_the_number(n: nat)
    ensures
        spelled(text::decimal(n)) == n,
        text::signed_decimal(n as int) == text::decimal(n),
        n > 0 ==> text::signed_decimal(-(n as int)) == seq!['-'] + text::decimal(n),
    decreases n,
{
    decimals_end_in_the_last_digit(n);
    reveal_with_fuel(spelled, 2);
    if n >= 10 {
        decimals_spell_the_number(n / 10);
    } else {
        assert(text::decimal(n).drop_last() =~= Seq::<char>::empty());
    }
}

proof fn lemma_digit(d: nat)
    requires
        d < 16,
    ensures
        channel::is_digit(text::digit(d), d as int),
{
    reveal_strlit("0123456789ABCDEF");
}

/// Hexadecimal writing: two digits for a byte and four for a 16-bit number, the highest first.
pub proof fn hexadecimals_spell_the_number(b: u8, n: u16)
    ensures
        text::hex2(b).len() == 2,
        channel::is_digit(text::hex2(b)[0], b as int / 16),
        channel::is_digit(text::hex2(b)[1], b as int % 16),
        text::hex4(n).len() == 4,
        channel::is_digit(text::hex4(n)[0], n as int / 0x1000),
        channel::is_digit(text::hex4(n)[1], n as int / 0x100 % 16),
        channel::is_digit(text::hex4(n)[2], n as int / 0x10 % 16),
        channel::is_digit(text::hex4(n)[3], n as int % 16),
{
    lemma_digit(b as nat / 16);
    lemma_digit(b as nat % 16);
    let high: u8 = (n / 256) as u8;
    let low: u8 = (n % 256) as u8;
    assert(high as int == n as int / 256 && low as int == n as int % 256);
    lemma_digit(high as nat / 16);
    lemma_digit(high as nat % 16);
    lemma_digit(low as nat / 16);
    lemma_digit(low as nat % 16);
    assert(text::hex4(n) =~= text::hex2(high) + text::hex2(low));
}

} // verus!
