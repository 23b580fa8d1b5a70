//! Double precision arithmetic on integers.
//!
//! Pointer coordinates are scaled between two screens with IEEE 754 binary64 arithmetic, rounding
//! to nearest with ties to even. The functions here compute the same values with integers only.
//! All magnitudes that occur lie far inside the exponent range of binary64, so that a value is
//! rounded to 53 significant bits and nothing else happens to it.

use vstd::prelude::*;

verus! {

/// A non-negative rational number.
pub struct Fraction {
    pub num: u128,
    pub den: u128,
}

/// The integer nearest to `n / d`; of two equally near ones the even one.
pub open spec fn half_even(n: nat, d: nat) -> nat {
    let q = n / d;
    let r = n % d;
    if 2 * r < d || (2 * r == d && q % 2 == 0) {
        q
    } else {
        q + 1
    }
}

/// The least power of two that lifts `n / d` to 53 bits in front of the point (one, if it has
/// them already).
pub open spec fn up(n: nat, d: nat) -> nat
    decreases 0x20_0000_0000_0000 * d - n,
{
    if n == 0 || n >= 0x10_0000_0000_0000 * d {
        1
    } else {
        2 * up(2 * n, d)
    }
}

/// The least power of two that, divided out of `n / d`, leaves at most 53 bits in front of the
/// point (one, if it has no more).
pub open spec fn down(n: nat, d: nat) -> nat
    decreases n - d,
{
    if d == 0 || n < 0x20_0000_0000_0000 * d {
        1
    } else {
        2 * down(n, 2 * d)
    }
}

/// The binary64 number nearest to the integer `n`.
pub open spec fn nearest_int_spec(n: nat) -> nat {
    half_even(n, down(n, 1)) * down(n, 1)
}

/// The binary64 number nearest to `a / b`, as a numerator and a denominator.
pub open spec fn nearest_quotient_spec(a: nat, b: nat) -> (nat, nat) {
    (half_even(a * up(a, b), b * down(a, b)) * down(a, b), up(a, b))
}

/// Rounds `n / d` to the nearest integer, ties to even.
fn round_half_even(n: u128, d: u128) -> (r: u128)
    requires
        0 < d,
        n < u128::MAX,
        d <= u128::MAX / 2,
    ensures
        r == half_even(n as nat, d as nat),
        r <= n / d + 1,
{
    let q: u128 = n / d;
    let rem: u128 = n % d;
    proof {
        assert(q <= n) by (nonlinear_arith)
            requires
                q == n / d,
                0 < d,
        ;
        assert(rem < d);
    }
    if 2 * rem < d || (2 * rem == d && q % 2 == 0) {
        q
    } else {
        q + 1
    }
}

/// Both scales are at least one.
pub proof fn lemma_scales_positive(n: nat, d: nat)
    ensures
        up(n, d) >= 1,
        down(n, d) >= 1,
{
    lemma_up(n, d);
    lemma_down(n, d);
}

/// `up` brings a non-zero `n / d` that is below 53 bits into the range of a mantissa.
proof fn lemma_up(n: nat, d: nat)
    ensures
        up(n, d) >= 1,
        n < 0x10_0000_0000_0000 * d ==> n * up(n, d) < 0x20_0000_0000_0000 * d,
        0 < n ==> n * up(n, d) >= 0x10_0000_0000_0000 * d,
    decreases 0x20_0000_0000_0000 * d - n,
{
    let u = up(n, d);
    if n == 0 || n >= 0x10_0000_0000_0000 * d {
        assert(n * u == n) by (nonlinear_arith)
            requires
                u == 1,
        ;
    } else {
        lemma_up(2 * n, d);
        let w = up(2 * n, d);
        assert(n * u == (2 * n) * w) by (nonlinear_arith)
            requires
                u == 2 * w,
        ;
        if 2 * n >= 0x10_0000_0000_0000 * d {
            assert((2 * n) * w == 2 * n) by (nonlinear_arith)
                requires
                    w == 1,
            ;
        }
    }
}

/// `down` brings `n / d` below 54 bits, and not further than needed.
proof fn lemma_down(n: nat, d: nat)
    ensures
        down(n, d) >= 1,
        0 < d ==> n < 0x20_0000_0000_0000 * (d * down(n, d)),
        0 < d && down(n, d) > 1 ==> 0x20_0000_0000_0000 * (d * down(n, d)) <= 2 * n,
    decreases n - d,
{
    if d == 0 || n < 0x20_0000_0000_0000 * d {
    } else {
        lemma_down(n, 2 * d);
        assert(d * (2 * down(n, 2 * d)) == (2 * d) * down(n, 2 * d)) by (nonlinear_arith);
        if n < 0x20_0000_0000_0000 * (2 * d) {
            assert(down(n, 2 * d) == 1);
        }
    }
}

/// The binary64 number nearest to the integer `n`.
pub fn nearest_int(n: u128) -> (r: u128)
    requires
        n <= u128::MAX / 4,
    ensures
        r == nearest_int_spec(n as nat),
        r <= 2 * n,
{
    let mut den: u128 = 1;
    while n / 0x20_0000_0000_0000 >= den
        invariant
            n <= u128::MAX / 4,
            1 <= den,
            den == 1 || 0x20_0000_0000_0000 * den <= 2 * n,
            down(n as nat, 1) == den * down(n as nat, den as nat),
        decreases n - den,
    {
        proof {
            assert(den * (2 * down(n as nat, 2 * den as nat)) == (2 * den) * down(
                n as nat,
                2 * den as nat,
            )) by (nonlinear_arith);
        }
        den = 2 * den;
    }
    let q: u128 = round_half_even(n, den);
    proof {
        let rest = down(n as nat, den as nat);
        assert(den * rest == den) by (nonlinear_arith)
            requires
                rest == 1,
        ;
        lemma_half_even_bound(n as nat, den as nat);
    }
    q * den
}

/// Rounding to an integer moves a value by at most one half.
proof fn lemma_half_even_bound(n: nat, d: nat)
    requires
        0 < d,
    ensures
        2 * (half_even(n, d) * d) <= 2 * n + d,
        2 * n <= 2 * (half_even(n, d) * d) + d,
{
    let q = n / d;
    let r = n % d;
    vstd::arithmetic::div_mod::lemma_fundamental_div_mod(n as int, d as int);
    assert((q + 1) * d == q * d + d) by (nonlinear_arith);
    assert(d * q == q * d) by (nonlinear_arith);
}

/// The binary64 number nearest to `a / b`.
pub fn nearest_quotient(a: u128, b: u128) -> (r: Fraction)
    requires
        a <= 0x1_0000_0000_0000_0000,
        0 < b <= 0x1_0000_0000,
    ensures
        (r.num as nat, r.den as nat) == nearest_quotient_spec(a as nat, b as nat),
        r.num <= 0x4_0000_0000_0000_0000,
        0 < r.den <= 0x20_0000_0000_0000 * 0x1_0000_0000,
{
    let mut n: u128 = a;
    let mut scale: u128 = 1;
    while n != 0 && n < 0x10_0000_0000_0000 * b
        invariant
            a <= 0x1_0000_0000_0000_0000,
            0 < b <= 0x1_0000_0000,
            1 <= scale,
            n == a * scale,
            scale == 1 || n < 0x20_0000_0000_0000 * b,
            a == 0 ==> scale == 1,
            up(a as nat, b as nat) == scale * up(n as nat, b as nat),
        decreases 0x20_0000_0000_0000 * b - n,
    {
        proof {
            let w = up(2 * n as nat, b as nat);
            assert(up(n as nat, b as nat) == 2 * w);
            assert(scale * (2 * w) == (2 * scale) * w) by (nonlinear_arith);
            assert(a * (2 * scale) == 2 * (a * scale)) by (nonlinear_arith);
            assert(scale <= a * scale) by (nonlinear_arith)
                requires
                    a >= 1,
            ;
        }
        n = 2 * n;
        scale = 2 * scale;
    }
    let mut den: u128 = b;
    let mut unit: u128 = 1;
    while a >= 0x20_0000_0000_0000 * den
        invariant
            a <= 0x1_0000_0000_0000_0000,
            0 < b <= 0x1_0000_0000,
            1 <= unit <= den,
            b <= den,
            den == b * unit,
            unit == 1 || 0x20_0000_0000_0000 * den <= 2 * a,
            unit == 1 ==> den == b,
            den <= 0x1_0000_0000,
            down(a as nat, b as nat) == unit * down(a as nat, den as nat),
        decreases a - den,
    {
        proof {
            let w = down(a as nat, 2 * den as nat);
            assert(down(a as nat, den as nat) == 2 * w);
            assert(unit * (2 * w) == (2 * unit) * w) by (nonlinear_arith);
            assert(b * (2 * unit) == 2 * (b * unit)) by (nonlinear_arith);
        }
        den = 2 * den;
        unit = 2 * unit;
    }
    proof {
        let u = up(n as nat, b as nat);
        let w = down(a as nat, den as nat);
        assert(scale * u == scale) by (nonlinear_arith)
            requires
                u == 1,
        ;
        assert(unit * w == unit) by (nonlinear_arith)
            requires
                w == 1,
        ;
        assert(scale <= a * scale || a == 0) by (nonlinear_arith)
            requires
                a >= 0,
                scale >= 0,
        ;
        assert(n < 0x20_0000_0000_0000 * den) by {
            if scale == 1 {
                assert(a * scale == a) by (nonlinear_arith)
                    requires
                        scale == 1,
                ;
            }
        }
    }
    let q: u128 = round_half_even(n, den);
    proof {
        assert(n / den < 0x20_0000_0000_0000) by (nonlinear_arith)
            requires
                n < 0x20_0000_0000_0000 * den,
                0 < den,
        ;
        assert(q * unit <= 0x20_0000_0000_0000 * unit) by (nonlinear_arith)
            requires
                q <= 0x20_0000_0000_0000,
                unit >= 0,
        ;
        assert(unit <= 0x1000);
    }
    Fraction { num: q * unit, den: scale }
}

/// Every integer up to 2^53 is a binary64 number: it is its own nearest one.
pub proof fn small_integers_are_exact(n: nat)
    requires
        n <= 0x20_0000_0000_0000,
    ensures
        nearest_int_spec(n) == n,
{
    reveal_with_fuel(down, 3);
    if n < 0x20_0000_0000_0000 {
        assert(half_even(n, 1) == n);
        assert(down(n, 1) == 1);
    } else {
        assert(half_even(n, 2) == 0x10_0000_0000_0000);
        assert(down(n, 1) == 2);
    }
    let (q, u) = (half_even(n, down(n, 1)), down(n, 1));
    assert(q * u == n) by (nonlinear_arith)
        requires
            (q == n && u == 1) || (2 * q == n && u == 2),
    ;
}

/// An integer at or below `n / d` is at or below its rounded value.
proof fn lemma_half_even_at_least(n: nat, d: nat, k: int)
    requires
        0 < d,
        k * d <= n,
    ensures
        k <= half_even(n, d),
{
    vstd::arithmetic::div_mod::lemma_fundamental_div_mod(n as int, d as int);
    let q = n / d;
    let r = n % d;
    assert(k <= q) by (nonlinear_arith)
        requires
            k * d <= n,
            n == d * q + r,
            r < d,
            0 < d,
    ;
}

/// Dividing in binary64 and then rounding to a whole number, halves upwards, gives the whole
/// number nearest to the exact quotient, as long as the dividend stays below 2^52.
pub proof fn quotient_rounds_like_exact(a: nat, b: nat)
    requires
        0 < b,
        a < 0x10_0000_0000_0000,
    ensures
        ({
            let (num, den) = nearest_quotient_spec(a, b);
            (2 * num + den) / (2 * den) == (2 * a + b) / (2 * b)
        }),
{
    let scale = up(a, b);
    let m = nearest_quotient_spec(a, b).0;
    let whole = ((2 * a + b) / (2 * b)) as int;
    lemma_up(a, b);
    assert(down(a, b) == 1);
    assert(b * down(a, b) == b) by (nonlinear_arith)
        requires
            down(a, b) == 1,
    ;
    assert(m == half_even(a * scale, b));
    vstd::arithmetic::div_mod::lemma_fundamental_div_mod((2 * a + b) as int, (2 * b) as int);
    if a == 0 {
        assert(a * scale == 0) by (nonlinear_arith)
            requires
                a == 0,
        ;
        assert(0nat / b == 0) by (nonlinear_arith)
            requires
                0 < b,
        ;
        assert(0nat % b == 0) by (nonlinear_arith)
            requires
                0 < b,
        ;
        assert(whole == 0) by (nonlinear_arith)
            requires
                whole == b / (2 * b),
                0 < b,
        ;
        assert(m == 0);
        assert(scale == 1);
        assert(1nat / 2 == 0);
    } else {
        let half = up(2 * a, b);
        assert(scale == 2 * half);
        assert(scale > b) by (nonlinear_arith)
            requires
                a * scale >= 0x10_0000_0000_0000 * b,
                a < 0x10_0000_0000_0000,
                0 < b,
        ;
        let below = 2 * whole - 1;
        let above = 2 * whole + 1;
        let r = (2 * a + b) % (2 * b);
        assert(below * b <= 2 * a && 2 * a <= above * b - 1) by (nonlinear_arith)
            requires
                2 * a + b == (2 * b) * whole + r,
                0 <= r < 2 * b,
                below == 2 * whole - 1,
                above == 2 * whole + 1,
        ;
        assert((below * half) * b <= a * scale) by (nonlinear_arith)
            requires
                below * b <= 2 * a,
                scale == 2 * half,
                half >= 0,
        ;
        lemma_half_even_at_least(a * scale, b, below * half);
        lemma_half_even_bound(a * scale, b);
        assert(2 * (a * scale) <= (above * scale) * b - scale) by (nonlinear_arith)
            requires
                2 * a <= above * b - 1,
                scale >= 0,
        ;
        assert(2 * m < above * scale) by (nonlinear_arith)
            requires
                2 * (m * b) <= 2 * (a * scale) + b,
                2 * (a * scale) <= (above * scale) * b - scale,
                scale > b,
                0 < b,
        ;
        assert(below * scale <= 2 * m) by (nonlinear_arith)
            requires
                below * half <= m,
                scale == 2 * half,
        ;
        let x = 2 * m + scale;
        assert(x / (2 * scale) == whole) by {
            assert((2 * scale) * whole <= x < (2 * scale) * whole + 2 * scale) by (nonlinear_arith)
                requires
                    below * scale <= 2 * m,
                    2 * m < above * scale,
                    below == 2 * whole - 1,
                    above == 2 * whole + 1,
                    x == 2 * m + scale,
            ;
            assert((2 * scale) * whole == whole * (2 * scale)) by (nonlinear_arith);
            vstd::arithmetic::div_mod::lemma_fundamental_div_mod_converse(
                x as int,
                (2 * scale) as int,
                whole,
                x - (2 * scale) * whole,
            );
        }
    }
}

/// Dividing, multiplying and cutting off the fraction, each in binary64, gives the whole part of
/// the exact `a * m / b`, as long as `a * m` stays below 2^51. Where `a * m / b` is whole, the
/// result may be one less.
pub proof fn product_truncates_near_exact(a: nat, b: nat, m: nat)
    requires
        0 < b,
        0 < m,
        a * m < 0x8_0000_0000_0000,
    ensures
        ({
            let (num, den) = nearest_quotient_spec(a, b);
            let whole = nearest_int_spec(num * m) / den;
            &&& den >= 1
            &&& whole <= (a * m) / b
            &&& (a * m) / b <= whole + 1
            &&& (a * m) % b != 0 ==> (a * m) / b == whole
        }),
{
    let (num, den) = nearest_quotient_spec(a, b);
    lemma_up(a, b);
    assert(a <= a * m) by (nonlinear_arith)
        requires
            0 < m,
    ;
    assert(down(a, b) == 1);
    assert(b * down(a, b) == b) by (nonlinear_arith)
        requires
            down(a, b) == 1,
    ;
    let q = half_even(a * den, b);
    assert(num == q) by (nonlinear_arith)
        requires
            num == q * down(a, b),
            down(a, b) == 1,
    ;
    let p = num * m;
    let d = down(p, 1);
    let r = nearest_int_spec(p);
    let e = ((a * m) / b) as int;
    lemma_half_even_bound(a * den, b);
    lemma_down(p, 1);
    lemma_half_even_bound(p, d);
    vstd::arithmetic::div_mod::lemma_fundamental_div_mod((a * m) as int, b as int);
    if a == 0 {
        assert(a * den == 0) by (nonlinear_arith)
            requires
                a == 0,
        ;
        assert(0nat / b == 0 && 0nat % b == 0) by (nonlinear_arith)
            requires
                0 < b,
        ;
        assert(num == 0);
        assert(p == 0) by (nonlinear_arith)
            requires
                p == num * m,
                num == 0,
        ;
        assert(a * m == 0) by (nonlinear_arith)
            requires
                a == 0,
        ;
        assert(d == 1);
        assert(r == 0);
        assert(den == 1);
    } else {
        // the product is off by at most m / 2 from the division, and by at most m from rounding
        assert(num <= 0x20_0000_0000_0000) by (nonlinear_arith)
            requires
                2 * (num * b) <= 2 * (a * den) + b,
                a * den < 0x20_0000_0000_0000 * b,
                0 < b,
        ;
        assert(p <= 0x20_0000_0000_0000 * m) by (nonlinear_arith)
            requires
                p == num * m,
                num <= 0x20_0000_0000_0000,
        ;
        assert(2 * r <= 2 * p + 2 * m && 2 * p <= 2 * r + 2 * m) by {
            if d > 1 {
                assert(1 * d == d);
                assert(d <= 2 * m);
            }
        }
        assert(den * a >= 0x10_0000_0000_0000 * b) by (nonlinear_arith)
            requires
                a * den >= 0x10_0000_0000_0000 * b,
        ;
        let rest = (a * m) % b;
        assert(3 * (m * b) < 2 * den) by (nonlinear_arith)
            requires
                den * a >= 0x10_0000_0000_0000 * b,
                a * m < 0x8_0000_0000_0000,
                0 < a,
                0 < b,
                0 < m,
        ;
        assert(2 * (num * b) * m <= (2 * (a * den) + b) * m) by (nonlinear_arith)
            requires
                2 * (num * b) <= 2 * (a * den) + b,
        ;
        assert(2 * (a * den) * m <= (2 * (num * b) + b) * m) by (nonlinear_arith)
            requires
                2 * (a * den) <= 2 * (num * b) + b,
        ;
        assert(2 * (p * b) <= 2 * (den * (a * m)) + b * m) by (nonlinear_arith)
            requires
                2 * (num * b) * m <= (2 * (a * den) + b) * m,
                p == num * m,
        ;
        assert(2 * (den * (a * m)) <= 2 * (p * b) + b * m) by (nonlinear_arith)
            requires
                2 * (a * den) * m <= (2 * (num * b) + b) * m,
                p == num * m,
        ;
        assert(r < (e + 1) * den) by (nonlinear_arith)
            requires
                2 * r <= 2 * p + 2 * m,
                2 * (p * b) <= 2 * (den * (a * m)) + b * m,
                a * m == b * e + rest,
                rest <= b - 1,
                3 * (m * b) < 2 * den,
                0 < b,
                0 < m,
                0 < den,
        ;
        assert((e - 1) * den <= r) by (nonlinear_arith)
            requires
                2 * p <= 2 * r + 2 * m,
                2 * (den * (a * m)) <= 2 * (p * b) + b * m,
                a * m == b * e + rest,
                rest >= 0,
                3 * (m * b) < 2 * den,
                0 < b,
                0 < m,
                0 < den,
        ;
        if rest != 0 {
            assert(e * den <= r) by (nonlinear_arith)
                requires
                    2 * p <= 2 * r + 2 * m,
                    2 * (den * (a * m)) <= 2 * (p * b) + b * m,
                    a * m == b * e + rest,
                    rest >= 1,
                    3 * (m * b) < 2 * den,
                    0 < b,
                    0 < m,
                    0 < den,
            ;
        }
        let whole = (r / den) as int;
        vstd::arithmetic::div_mod::lemma_fundamental_div_mod(r as int, den as int);
        assert(e - 1 <= whole <= e) by (nonlinear_arith)
            requires
                r == den * whole + r % den,
                0 <= r % den < den,
                r < (e + 1) * den,
                (e - 1) * den <= r,
        ;
        if rest != 0 {
            assert(e <= whole) by (nonlinear_arith)
                requires
                    r == den * whole + r % den,
                    0 <= r % den < den,
                    e * den <= r,
            ;
        }
    }
}

/// The binary64 sum of two whole numbers.
pub open spec fn sum_spec(a: int, b: int) -> int {
    if a + b < 0 {
        -(nearest_int_spec((-(a + b)) as nat) as int)
    } else {
        nearest_int_spec((a + b) as nat) as int
    }
}

/// A sum within 2^53 of zero is exact.
pub proof fn small_sums_are_exact(sum: int)
    requires
        -0x20_0000_0000_0000 <= sum <= 0x20_0000_0000_0000,
    ensures
        forall|a: int, b: int| a + b == sum ==> #[trigger] sum_spec(a, b) == sum,
{
    small_integers_are_exact(
        if sum < 0 {
            (-sum) as nat
        } else {
            sum as nat
        },
    );
}

/// The magnitude at which a 16-bit movement no longer changes a binary64 number: 2^69.
pub const STUCK: i128 = 0x20_0000_0000_0000_0000;

/// Adds a 16-bit number in binary64. A sum never grows beyond `STUCK`.
pub fn add_i16(a: i128, b: i16) -> (r: i128)
    requires
        -STUCK <= a <= STUCK,
    ensures
        r == sum_spec(a as int, b as int),
        -STUCK <= r <= STUCK,
{
    let sum: i128 = a + b as i128;
    let magnitude: u128 = if sum < 0 {
        (-sum) as u128
    } else {
        sum as u128
    };
    proof {
        vstd::arithmetic::power2::lemma2_to64();
        lemma_sum_is_stuck(magnitude as nat, 0);
    }
    let rounded: u128 = nearest_int(magnitude);
    if sum < 0 {
        -(rounded as i128)
    } else {
        rounded as i128
    }
}

/// Rounding at the scale `down` finds, starting from `2^j`, does not lead beyond 2^69.
proof fn lemma_sum_is_stuck(n: nat, j: nat)
    requires
        n <= 0x20_0000_0000_0000_0000 + 0x8000,
        j <= 17,
    ensures
        ({
            let d = vstd::arithmetic::power2::pow2(j) * down(n, vstd::arithmetic::power2::pow2(j));
            half_even(n, d) * d <= 0x20_0000_0000_0000_0000
        }),
    decreases 17 - j,
{
    let d = vstd::arithmetic::power2::pow2(j);
    vstd::arithmetic::power2::lemma2_to64();
    vstd::arithmetic::power2::lemma_pow2_pos(j);
    if n < 0x20_0000_0000_0000 * d {
        let k = vstd::arithmetic::power2::pow2((69 - j) as nat);
        vstd::arithmetic::power2::lemma_pow2_adds(j, (69 - j) as nat);
        vstd::arithmetic::power2::lemma_pow2_adds(5, 64);
        assert(d * k == 0x20_0000_0000_0000_0000);
        assert(d * down(n, d) == d) by (nonlinear_arith)
            requires
                down(n, d) == 1,
        ;
        assert(2 * n < 2 * (d * k) + d) by {
            if j < 17 {
                vstd::arithmetic::power2::lemma_pow2_strictly_increases(j, 17);
                assert(d <= 0x1_0000) by {
                    if j < 16 {
                        vstd::arithmetic::power2::lemma_pow2_strictly_increases(j, 16);
                    }
                }
            }
        }
        lemma_half_even_bound(n, d);
        let q = half_even(n, d);
        assert(q <= k) by (nonlinear_arith)
            requires
                2 * (q * d) <= 2 * n + d,
                2 * n < 2 * (d * k) + d,
                0 < d,
        ;
        assert(q * d <= d * k) by (nonlinear_arith)
            requires
                q <= k,
                0 < d,
        ;
    } else {
        assert(j < 17);
        lemma_sum_is_stuck(n, j + 1);
        vstd::arithmetic::power2::lemma_pow2_unfold(j + 1);
        let w = down(n, 2 * d);
        assert(d * (2 * w) == (2 * d) * w) by (nonlinear_arith);
    }
}

/// Ten to the power of `k`.
pub open spec fn ten(k: nat) -> nat
    decreases k,
{
    if k == 0 {
        1
    } else {
        10 * ten((k - 1) as nat)
    }
}

/// The multiple of `p` next to `x` that reads back as `x`, rounded to binary64: the nearer one
/// where both its neighbours do, and none where neither does.
pub open spec fn rounded_to(x: nat, p: nat) -> Option<nat> {
    let lo = (x / p) * p;
    let hi = lo + p;
    let lo_reads = nearest_int_spec(lo) == x;
    let hi_reads = nearest_int_spec(hi) == x;
    if lo_reads && (!hi_reads || x - lo < hi - x) {
        Some(lo)
    } else if hi_reads {
        Some(hi)
    } else {
        None
    }
}

/// `x` with as many of its last `k` digits made zero as can be without it reading back as another
/// number.
pub open spec fn shortest_from(x: nat, k: nat) -> nat
    decreases k,
{
    if k == 0 {
        x
    } else {
        match rounded_to(x, ten(k)) {
            Some(v) => v,
            None => shortest_from(x, (k - 1) as nat),
        }
    }
}

/// The whole number that a binary64 number is printed as: its shortest digits that read back as
/// the number, filled up with zeros.
pub open spec fn printed_spec(x: int) -> int {
    if x < 0 {
        -(shortest_from(nearest_int_spec((-x) as nat), 21) as int)
    } else {
        shortest_from(nearest_int_spec(x as nat), 21) as int
    }
}

/// The shortest digits of a binary64 number, filled up with zeros.
fn shortest(x: u128) -> (r: u128)
    requires
        x <= 2 * STUCK,
    ensures
        r == shortest_from(x as nat, 21),
        r <= 2 * STUCK + 1_000_000_000_000_000_000_000,
{
    let mut k: usize = 21;
    let mut p: u128 = 1_000_000_000_000_000_000_000;
    proof {
        reveal_with_fuel(ten, 22);
        assert(p == ten(21));
    }
    while k > 0
        invariant
            x <= 2 * STUCK,
            k <= 21,
            p == ten(k as nat),
            1 <= p <= 1_000_000_000_000_000_000_000,
            shortest_from(x as nat, 21) == shortest_from(x as nat, k as nat),
        decreases k,
    {
        proof {
            assert((x / p) * p <= x < (x / p) * p + p) by (nonlinear_arith)
                requires
                    p >= 1,
            ;
            assert(p == 10 * ten((k - 1) as nat));
        }
        let lo: u128 = x / p * p;
        let hi: u128 = lo + p;
        let lo_reads = nearest_int(lo) == x;
        let hi_reads = nearest_int(hi) == x;
        if lo_reads && (!hi_reads || x - lo < hi - x) {
            return lo;
        }
        if hi_reads {
            return hi;
        }
        k -= 1;
        p = p / 10;
    }
    x
}

/// The whole number that a binary64 number is printed as.
pub fn printed(x: i128) -> (r: i128)
    requires
        -STUCK <= x <= STUCK,
    ensures
        r == printed_spec(x as int),
{
    if x < 0 {
        -(shortest(nearest_int((-x) as u128)) as i128)
    } else {
        shortest(nearest_int(x as u128)) as i128
    }
}

/// A number from 2^53 on is not rounded to one below.
proof fn lemma_large_stays_large(v: nat)
    requires
        v >= 0x20_0000_0000_0000,
    ensures
        nearest_int_spec(v) >= 0x20_0000_0000_0000,
{
    let d = down(v, 1);
    lemma_down(v, 1);
    assert(d == 2 * down(v, 2));
    lemma_down(v, 2);
    assert(1 * d == d);
    assert(0x10_0000_0000_0000 * d <= v);
    lemma_half_even_at_least(v, d, 0x10_0000_0000_0000);
    let q = half_even(v, d);
    assert(q * d >= 0x20_0000_0000_0000) by (nonlinear_arith)
        requires
            q >= 0x10_0000_0000_0000,
            d >= 2,
    ;
}

proof fn lemma_small_is_shortest(x: nat, k: nat)
    requires
        x < 0x20_0000_0000_0000,
    ensures
        shortest_from(x, k) == x,
    decreases k,
{
    if k > 0 {
        if let Some(v) = rounded_to(x, ten(k)) {
            if v >= 0x20_0000_0000_0000 {
                lemma_large_stays_large(v);
            } else {
                small_integers_are_exact(v);
            }
        }
        lemma_small_is_shortest(x, (k - 1) as nat);
    }
}

/// A whole number within 2^53 of zero is printed to its last digit.
pub proof fn small_integers_are_printed_in_full(x: int)
    requires
        -0x20_0000_0000_0000 < x < 0x20_0000_0000_0000,
    ensures
        printed_spec(x) == x,
{
    let n = if x < 0 {
        (-x) as nat
    } else {
        x as nat
    };
    small_integers_are_exact(n);
    lemma_small_is_shortest(n, 21);
}

/// The scale that `down` finds from a power of two on is a power of two.
proof fn lemma_down_is_power(n: nat, j: nat) -> (k: nat)
    ensures
        k >= j,
        vstd::arithmetic::power2::pow2(j) * down(n, vstd::arithmetic::power2::pow2(j))
            == vstd::arithmetic::power2::pow2(k),
    decreases n - vstd::arithmetic::power2::pow2(j),
{
    let d = vstd::arithmetic::power2::pow2(j);
    vstd::arithmetic::power2::lemma_pow2_pos(j);
    if n < 0x20_0000_0000_0000 * d {
        assert(d * down(n, d) == d) by (nonlinear_arith)
            requires
                down(n, d) == 1,
        ;
        j
    } else {
        vstd::arithmetic::power2::lemma_pow2_unfold(j + 1);
        let k = lemma_down_is_power(n, j + 1);
        let w = down(n, 2 * d);
        assert(d * (2 * w) == (2 * d) * w) by (nonlinear_arith);
        k
    }
}

/// How far apart two numbers are.
pub open spec fn apart(a: int, b: int) -> int {
    if a < b {
        b - a
    } else {
        a - b
    }
}

/// Of all numbers with 53 significant bits the one that an integer is rounded to is the nearest:
/// no `q * 2^e` with `q` up to 2^53 is nearer to it. It is such a number itself, with an even `q`
/// where it lies half a unit off.
pub proof fn nearest_int_is_nearest(n: nat, q: nat, e: nat) -> (r: (nat, nat))
    requires
        q <= 0x20_0000_0000_0000,
    ensures
        apart(nearest_int_spec(n) as int, n as int) <= apart(
            (q * vstd::arithmetic::power2::pow2(e)) as int,
            n as int,
        ),
        r.0 <= 0x20_0000_0000_0000,
        nearest_int_spec(n) == r.0 * vstd::arithmetic::power2::pow2(r.1),
        2 * apart(nearest_int_spec(n) as int, n as int) == vstd::arithmetic::power2::pow2(r.1)
            ==> r.0 % 2 == 0,
{
    vstd::arithmetic::power2::lemma2_to64();
    let k = lemma_down_is_power(n, 0);
    let d = down(n, 1);
    assert(1 * d == d);
    lemma_down(n, 1);
    lemma_half_even_bound(n, d);
    let m = half_even(n, d);
    lemma_half_even_tie(n, d);
    let p = vstd::arithmetic::power2::pow2(e);
    vstd::arithmetic::power2::lemma_pow2_pos(e);
    let v = q * p;
    assert(m <= 0x20_0000_0000_0000) by (nonlinear_arith)
        requires
            2 * (m * d) <= 2 * n + d,
            n < 0x20_0000_0000_0000 * d,
            0 < d,
    ;
    if e >= k {
        vstd::arithmetic::power2::lemma_pow2_adds(k, (e - k) as nat);
        let t = q * vstd::arithmetic::power2::pow2((e - k) as nat);
        let f = vstd::arithmetic::power2::pow2((e - k) as nat);
        assert(v == t * d) by (nonlinear_arith)
            requires
                v == q * p,
                p == d * f,
                t == q * f,
        ;
        lemma_nearest_multiple(n as int, d as int, m as int, t as int);
    } else {
        vstd::arithmetic::power2::lemma_pow2_strictly_increases(e, k);
        vstd::arithmetic::power2::lemma_pow2_unfold(k);
        if e < k - 1 {
            vstd::arithmetic::power2::lemma_pow2_strictly_increases(e, (k - 1) as nat);
        }
        assert(2 * p <= d);
        assert(v <= 0x10_0000_0000_0000 * d) by (nonlinear_arith)
            requires
                v == q * p,
                q <= 0x20_0000_0000_0000,
                2 * p <= d,
        ;
        assert(0x10_0000_0000_0000 * d <= n);
        lemma_nearest_multiple(n as int, d as int, m as int, 0x10_0000_0000_0000);
    }
    (m, k)
}

/// No multiple of `d` is nearer to `n` than one within half of `d`.
proof fn lemma_nearest_multiple(n: int, d: int, m: int, t: int)
    requires
        0 < d,
        2 * (m * d) <= 2 * n + d,
        2 * n <= 2 * (m * d) + d,
    ensures
        apart(m * d, n) <= apart(t * d, n),
{
    if t < m {
        assert(t * d <= m * d - d) by (nonlinear_arith)
            requires
                t <= m - 1,
                0 < d,
        ;
    } else if t > m {
        assert(t * d >= m * d + d) by (nonlinear_arith)
            requires
                t >= m + 1,
                0 < d,
        ;
    }
}

/// A quotient is rounded by less than one part in 2^53 of itself.
pub proof fn quotients_are_close(a: nat, b: nat)
    requires
        0 < b,
    ensures
        ({
            let (num, den) = nearest_quotient_spec(a, b);
            &&& den >= 1
            &&& 0x20_0000_0000_0000 * apart((num * b) as int, (a * den) as int) <= a * den
        }),
{
    let u = up(a, b);
    let d = down(a, b);
    lemma_up(a, b);
    lemma_down(a, b);
    let unit = b * d;
    assert(0 < unit) by (nonlinear_arith)
        requires
            0 < b,
            1 <= d,
            unit == b * d,
    ;
    lemma_half_even_bound(a * u, unit);
    let q = half_even(a * u, unit);
    assert((q * d) * b == q * unit) by (nonlinear_arith)
        requires
            unit == b * d,
    ;
    if a == 0 {
        assert(a * u == 0) by (nonlinear_arith)
            requires
                a == 0,
        ;
        assert(q == 0) by (nonlinear_arith)
            requires
                2 * (q * unit) <= unit,
                0 < unit,
        ;
        assert(q * unit == 0) by (nonlinear_arith)
            requires
                q == 0,
        ;
    } else if d > 1 {
        assert(a >= 0x10_0000_0000_0000 * b) by (nonlinear_arith)
            requires
                0x20_0000_0000_0000 * (b * d) <= 2 * a,
                d >= 1,
        ;
        assert(a * u == a) by (nonlinear_arith)
            requires
                u == 1,
        ;
    } else {
        assert(unit == b) by (nonlinear_arith)
            requires
                unit == b * d,
                d == 1,
        ;
    }
}

/// What is printed of a number reads back as the number.
pub proof fn printed_numbers_read_back(x: nat, k: nat)
    requires
        nearest_int_spec(x) == x,
    ensures
        nearest_int_spec(shortest_from(x, k)) == x,
    decreases k,
{
    if k > 0 {
        printed_numbers_read_back(x, (k - 1) as nat);
    }
}

/// Nothing shorter would do: where a neighbour of the number with `j` zeros at its end reads back,
/// what is printed has them.
pub proof fn printed_numbers_are_shortest(x: nat, j: nat, k: nat)
    requires
        j <= k,
        nearest_int_spec((x / ten(j)) * ten(j)) == x || nearest_int_spec(
            (x / ten(j)) * ten(j) + ten(j),
        ) == x,
    ensures
        shortest_from(x, k) % ten(j) == 0,
    decreases k,
{
    lemma_ten_positive(j);
    if k == j {
        if k > 0 {
            let p = ten(k);
            let c = x / p;
            vstd::arithmetic::div_mod::lemma_mod_multiples_basic(c as int, p as int);
            vstd::arithmetic::div_mod::lemma_mod_multiples_basic((c + 1) as int, p as int);
            assert((c + 1) * p == c * p + p) by (nonlinear_arith);
        }
    } else {
        match rounded_to(x, ten(k)) {
            Some(v) => {
                lemma_ten_divides(j, k);
                let f = ten((k - j) as nat);
                let p = ten(j);
                let c = x / ten(k);
                assert(ten(k) == f * p);
                assert(c * (f * p) == (c * f) * p) by (nonlinear_arith);
                assert(c * (f * p) + f * p == ((c + 1) * f) * p) by (nonlinear_arith);
                vstd::arithmetic::div_mod::lemma_mod_multiples_basic((c * f) as int, p as int);
                vstd::arithmetic::div_mod::lemma_mod_multiples_basic(
                    ((c + 1) * f) as int,
                    p as int,
                );
            },
            None => {
                printed_numbers_are_shortest(x, j, (k - 1) as nat);
            },
        }
    }
}

/// Of two neighbours with as many zeros as can be, the nearer is printed, the greater where both are
/// as near.
pub proof fn the_nearer_neighbour_is_printed(x: nat, j: nat, k: nat)
    requires
        1 <= j <= k,
        nearest_int_spec((x / ten(j)) * ten(j)) == x,
        nearest_int_spec((x / ten(j)) * ten(j) + ten(j)) == x,
        forall|i: nat|
            j < i <= k ==> nearest_int_spec((x / #[trigger] ten(i)) * ten(i)) != x
                && nearest_int_spec((x / ten(i)) * ten(i) + ten(i)) != x,
    ensures
        2 * (x % ten(j)) < ten(j) ==> shortest_from(x, k) == (x / ten(j)) * ten(j),
        2 * (x % ten(j)) >= ten(j) ==> shortest_from(x, k) == (x / ten(j)) * ten(j) + ten(j),
    decreases k,
{
    lemma_ten_positive(j);
    let p = ten(j);
    vstd::arithmetic::div_mod::lemma_fundamental_div_mod(x as int, p as int);
    assert(p * (x / p) == (x / p) * p) by (nonlinear_arith);
    if k > j {
        assert(nearest_int_spec((x / ten(k)) * ten(k)) != x);
        the_nearer_neighbour_is_printed(x, j, (k - 1) as nat);
    }
}

/// The powers of ten.
pub proof fn ten_grows_tenfold(k: nat)
    ensures
        ten(0) == 1,
        ten(k + 1) == 10 * ten(k),
{
}

proof fn lemma_ten_positive(k: nat)
    ensures
        ten(k) >= 1,
    decreases k,
{
    if k > 0 {
        lemma_ten_positive((k - 1) as nat);
    }
}

proof fn lemma_ten_divides(j: nat, k: nat)
    requires
        j <= k,
    ensures
        ten(k) == ten((k - j) as nat) * ten(j),
    decreases k,
{
    let f = ten((k - j) as nat);
    let p = ten(j);
    if k == j {
        assert(f * p == p) by (nonlinear_arith)
            requires
                f == 1,
        ;
    } else {
        lemma_ten_divides(j, (k - 1) as nat);
        let g = ten((k - 1 - j) as nat);
        assert(f == 10 * g);
        assert((10 * g) * p == 10 * (g * p)) by (nonlinear_arith);
    }
}

/// A sum is rounded to the nearest number with 53 significant bits, and of opposite sums each is
/// rounded to the opposite of the other.
pub proof fn sums_are_nearest(a: int, b: int, q: nat, e: nat)
    requires
        q <= 0x20_0000_0000_0000,
    ensures
        sum_spec(-a, -b) == -sum_spec(a, b),
        a + b >= 0 ==> sum_spec(a, b) >= 0,
        a + b >= 0 ==> apart(sum_spec(a, b), a + b) <= apart(
            (q * vstd::arithmetic::power2::pow2(e)) as int,
            a + b,
        ),
{
    small_integers_are_exact(0);
    if a + b >= 0 {
        let r = nearest_int_is_nearest((a + b) as nat, q, e);
    }
}

/// What is printed of a binary64 number reads back as that number, and where a neighbour with `j`
/// zeros at its end reads back too, it has them. The sign is printed as it is.
pub proof fn numbers_are_printed_shortest(x: int, j: nat)
    requires
        0 <= x,
        nearest_int_spec(x as nat) == x,
        j <= 21,
    ensures
        printed_spec(x) >= 0,
        nearest_int_spec(printed_spec(x) as nat) == x,
        nearest_int_spec(((x / ten(j) as int) * ten(j)) as nat) == x || nearest_int_spec(
            ((x / ten(j) as int) * ten(j) + ten(j)) as nat,
        ) == x ==> printed_spec(x) % ten(j) as int == 0,
        x > 0 ==> printed_spec(-x) == -printed_spec(x),
{
    let n = x as nat;
    printed_numbers_read_back(n, 21);
    lemma_ten_positive(j);
    let p = ten(j);
    assert(x / p as int == (n / p) as int);
    assert((n / p) * p >= 0) by (nonlinear_arith);
    if nearest_int_spec((n / p) * p) == n || nearest_int_spec((n / p) * p + p) == n {
        printed_numbers_are_shortest(n, j, 21);
    }
}

/// An integer is rounded by less than one part in 2^53 of itself.
pub proof fn integers_are_close(n: nat)
    ensures
        0x20_0000_0000_0000 * apart(nearest_int_spec(n) as int, n as int) <= n,
{
    let d = down(n, 1);
    lemma_down(n, 1);
    lemma_half_even_bound(n, d);
    let q = half_even(n, d);
    if d == 1 {
        assert(q * d == q) by (nonlinear_arith)
            requires
                d == 1,
        ;
        assert(n / 1 == n && n % 1 == 0);
    }
}

/// A quotient of two integers, the first of them rounded, keeps three parts in 2^53.
pub proof fn quotients_of_rounded_are_close(n: nat, b: nat)
    requires
        0 < b,
    ensures
        ({
            let (num, den) = nearest_quotient_spec(nearest_int_spec(n), b);
            &&& den >= 1
            &&& 0x20_0000_0000_0000 * apart((num * b) as int, (n * den) as int) <= 3 * (n * den)
            &&& num * b <= 2 * (n * den)
        }),
{
    let a = nearest_int_spec(n);
    integers_are_close(n);
    quotients_are_close(a, b);
    let (num, den) = nearest_quotient_spec(a, b);
    let k: int = apart(a as int, n as int);
    assert(apart((a * den) as int, (n * den) as int) <= k * den) by (nonlinear_arith)
        requires
            k == apart(a as int, n as int),
            den >= 1,
    ;
    assert(0x20_0000_0000_0000 * (k * den) <= n * den) by (nonlinear_arith)
        requires
            0x20_0000_0000_0000 * k <= n,
            den >= 1,
    ;
}

/// A number half way between two integers is rounded to the even one.
proof fn lemma_half_even_tie(n: nat, d: nat)
    requires
        0 < d,
    ensures
        2 * apart((half_even(n, d) * d) as int, n as int) == d ==> half_even(n, d) % 2 == 0,
{
    let q = n / d;
    vstd::arithmetic::div_mod::lemma_fundamental_div_mod(n as int, d as int);
    assert(d * q == q * d) by (nonlinear_arith);
    assert((q + 1) * d == q * d + d) by (nonlinear_arith);
}

/// The scale that `up` finds is a power of two.
proof fn lemma_up_is_power(n: nat, d: nat) -> (j: nat)
    ensures
        up(n, d) == vstd::arithmetic::power2::pow2(j),
    decreases 0x20_0000_0000_0000 * d - n,
{
    if n == 0 || n >= 0x10_0000_0000_0000 * d {
        vstd::arithmetic::power2::lemma2_to64();
        0
    } else {
        let i = lemma_up_is_power(2 * n, d);
        vstd::arithmetic::power2::lemma_pow2_unfold(i + 1);
        i + 1
    }
}

/// Of all fractions with 53 significant bits the one that a quotient below 2^53 is rounded to is the
/// nearest: no `q / 2^e` with `q` up to 2^53 is nearer to it. Where it lies half a unit off, its
/// numerator is even.
pub proof fn nearest_quotient_is_nearest(a: nat, b: nat, q: nat, e: nat)
    requires
        0 < b,
        a < 0x20_0000_0000_0000 * b,
        q <= 0x20_0000_0000_0000,
    ensures
        ({
            let (num, den) = nearest_quotient_spec(a, b);
            let p = vstd::arithmetic::power2::pow2(e);
            &&& apart((num * b) as int, (a * den) as int) * p <= apart(
                ((q * b) * den) as int,
                ((a * den) * p) as int,
            )
            &&& 2 * apart((num * b) as int, (a * den) as int) == b ==> num % 2 == 0
        }),
{
    let j = lemma_up_is_power(a, b);
    let u = up(a, b);
    let p = vstd::arithmetic::power2::pow2(e);
    vstd::arithmetic::power2::lemma_pow2_pos(e);
    vstd::arithmetic::power2::lemma_pow2_pos(j);
    lemma_up(a, b);
    assert(down(a, b) == 1);
    assert(b * 1 == b);
    let n = a * u;
    let m = half_even(n, b);
    let (num, den) = nearest_quotient_spec(a, b);
    assert(num == m) by (nonlinear_arith)
        requires
            num == m * 1,
    ;
    lemma_half_even_bound(n, b);
    lemma_half_even_tie(n, b);
    let k: int = apart((m * b) as int, n as int);
    if a == 0 {
        assert(n == 0) by (nonlinear_arith)
            requires
                a == 0,
                n == a * u,
        ;
        assert(m == 0) by (nonlinear_arith)
            requires
                2 * (m * b) <= b,
                0 < b,
        ;
        assert(m * b == 0 && k * p == 0) by (nonlinear_arith)
            requires
                m == 0,
                k == apart((m * b) as int, 0),
        ;
    } else if e <= j {
        let f = vstd::arithmetic::power2::pow2((j - e) as nat);
        vstd::arithmetic::power2::lemma_pow2_adds(e, (j - e) as nat);
        lemma_nearest_multiple(n as int, b as int, m as int, (q * f) as int);
        let t: int = apart(((q * f) * b) as int, n as int);
        assert(k * p <= t * p) by (nonlinear_arith)
            requires
                k <= t,
                p >= 1,
        ;
        assert((q * b) * u == ((q * f) * b) * p) by (nonlinear_arith)
            requires
                u == p * f,
        ;
        assert(t * p == apart((((q * f) * b) * p) as int, (n * p) as int)) by (nonlinear_arith)
            requires
                t == apart(((q * f) * b) as int, n as int),
                p >= 1,
        ;
    } else {
        let g = vstd::arithmetic::power2::pow2((e - j) as nat);
        vstd::arithmetic::power2::lemma_pow2_adds(j, (e - j) as nat);
        vstd::arithmetic::power2::lemma_pow2_strictly_increases(0, (e - j) as nat);
        vstd::arithmetic::power2::lemma2_to64();
        assert(g >= 2);
        lemma_nearest_multiple(n as int, b as int, m as int, 0x10_0000_0000_0000);
        let low = 0x10_0000_0000_0000 * b;
        assert(k <= n - low);
        let ng = n * g;
        let qb = q * b;
        assert(k * g <= ng - qb && qb <= ng) by (nonlinear_arith)
            requires
                0 <= k <= n - low,
                low == 0x10_0000_0000_0000 * b,
                q <= 0x20_0000_0000_0000,
                qb == q * b,
                ng == n * g,
                g >= 2,
        {
            assert(q * b <= 0x20_0000_0000_0000 * b);
            assert(low * g >= low * 2);
            assert(k * g <= (n - low) * g);
            assert((n - low) * g == n * g - low * g);
            assert(0 <= k * g);
        }
        assert(k * p == (k * g) * u) by (nonlinear_arith)
            requires
                p == u * g,
        ;
        assert(n * p == ng * u) by (nonlinear_arith)
            requires
                p == u * g,
                ng == n * g,
        ;
        assert((k * g) * u <= ng * u - qb * u) by (nonlinear_arith)
            requires
                k * g <= ng - qb,
                u >= 1,
        ;
    }
}

} // verus!
