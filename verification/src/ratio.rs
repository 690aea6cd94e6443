//! Exact fractions: every derived quantity is published as one, so that no
//! rounding happens before the last step.

use vstd::prelude::*;

use crate::text::{append_decimal, append_padded};
#[allow(unused_imports)]
use crate::text::{decimal, padded};

verus! {

/// `num / den`, with a positive denominator.
#[derive(Debug, Clone, Copy, PartialEq, Eq, Structural)]
pub struct Ratio {
    pub num: i128,
    pub den: i128,
}

/// Largest denominator of a fraction that can be written with up to six
/// decimals.
pub const DEN_LIMIT: i128 = 0x100_0000_0000_0000_0000_0000_0000;

pub open spec fn pow10(places: nat) -> int
    decreases places,
{
    if places == 0 {
        1
    } else {
        10 * pow10((places - 1) as nat)
    }
}

/// The size of a fraction.
pub open spec fn size_of(r: Ratio) -> int {
    if r.num < 0 {
        -r.num
    } else {
        r.num as int
    }
}

/// The least number with 53 binary digits.
pub const SIGNIFICAND_MIN: i128 = 0x10_0000_0000_0000;

/// The least number with 54 binary digits: from here on a double-precision
/// number has no fraction.
pub const FRACTION_LIMIT: i128 = 0x20_0000_0000_0000;

/// The power of two whose inverse is the last binary place that a
/// double-precision number of the size `size / den` has: with it, the size has
/// 53 binary digits before the point.
pub open spec fn fineness(size: int, den: int) -> int
    decreases
            if size >= SIGNIFICAND_MIN * den {
                0
            } else {
                SIGNIFICAND_MIN * den - size
            },
{
    if size <= 0 || size >= SIGNIFICAND_MIN * den {
        1
    } else {
        2 * fineness(2 * size, den)
    }
}

/// The significand of the double-precision number that is nearest to
/// `size / den`: that number is the significand over the fineness.
pub open spec fn significand(size: int, den: int) -> int {
    half_even(2 * size * fineness(size, den), den)
}

/// The size of a fraction in units of the last of `places` decimals: the
/// nearest double-precision number, rounded to the nearest unit, and a tie to
/// the even one. So a decimal tie falls to the side on which the binary number
/// lies. Beyond the fractions of double precision the exact size is rounded.
pub open spec fn scaled(r: Ratio, places: nat) -> int {
    let size = size_of(r);
    let den = r.den as int;
    if size >= FRACTION_LIMIT * den {
        half_even(2 * size * pow10(places), den)
    } else {
        half_even(2 * significand(size, den) * pow10(places), fineness(size, den))
    }
}

/// `twice / (2 * den)`, rounded to the nearest integer, and a tie to the even
/// one.
pub open spec fn half_even(twice: int, den: int) -> int {
    let q = twice / (2 * den);
    let r = twice % (2 * den);
    if r > den || (r == den && q % 2 == 1) {
        q + 1
    } else {
        q
    }
}

/// A fraction written with `places` decimals, rounded as a double-precision
/// number. A negative one keeps its sign even where it rounds to zero.
pub open spec fn fixed_text(r: Ratio, places: nat) -> Seq<char> {
    let units = scaled(r, places);
    (if r.num < 0 {
        seq!['-']
    } else {
        Seq::<char>::empty()
    }) + decimal(units / pow10(places)) + seq!['.'] + padded(units % pow10(places), places)
}

/// A fraction's size in units of the last of `places` decimals, rounded to the
/// nearest, and a half up.
pub open spec fn scaled_up(r: Ratio, places: nat) -> int {
    (2 * size_of(r) * pow10(places) + r.den) / (2 * r.den)
}

/// A fraction rounded to `places` decimals, a half away from zero.
pub open spec fn nearest_away(r: Ratio, places: nat) -> Ratio {
    Ratio {
        num: (if r.num < 0 {
            -scaled_up(r, places)
        } else {
            scaled_up(r, places)
        }) as i128,
        den: pow10(places) as i128,
    }
}

fn power_of_ten(places: u32) -> (p: i128)
    requires
        places <= 9,
    ensures
        p == pow10(places as nat),
        1 <= p <= 1_000_000_000,
{
    proof {
        reveal_with_fuel(pow10, 10);
    }
    match places {
        0 => 1,
        1 => 10,
        2 => 100,
        3 => 1_000,
        4 => 10_000,
        5 => 100_000,
        6 => 1_000_000,
        7 => 10_000_000,
        8 => 100_000_000,
        _ => 1_000_000_000,
    }
}

impl Ratio {
    pub open spec fn wf(self) -> bool {
        self.den > 0
    }

    /// Small enough to be written out.
    pub open spec fn in_range(self) -> bool {
        &&& 0 < self.den <= DEN_LIMIT
        &&& self.num > i128::MIN
    }

    /// Whether writing the fraction with `places` decimals stays within the
    /// integer type.
    pub open spec fn writable(self, places: nat) -> bool {
        &&& self.den > 0
        &&& self.num > i128::MIN
        &&& 4 * self.den * pow10(places) <= i128::MAX
    }

    /// Whether the fraction is the number `value`.
    pub open spec fn is_int(self, value: int) -> bool {
        self.num == value * self.den
    }

    /// Whether comparing the two stays within the integer type.
    pub open spec fn comparable(self, other: Ratio) -> bool {
        &&& i128::MIN < self.num * other.den <= i128::MAX
        &&& i128::MIN < other.num * self.den <= i128::MAX
    }

    pub fn new(num: i128, den: i128) -> (r: Ratio)
        requires
            den > 0,
        ensures
            r == (Ratio { num, den }),
    {
        Ratio { num, den }
    }

    pub fn zero() -> (r: Ratio)
        ensures
            r == (Ratio { num: 0, den: 1 }),
    {
        Ratio { num: 0, den: 1 }
    }

    /// Write the fraction with `places` decimals.
    pub fn fixed(self, places: u32) -> (text: String)
        requires
            self.writable(places as nat),
            1 <= places <= 9,
        ensures
            text@ == fixed_text(self, places as nat),
    {
        let size: i128 = if self.num < 0 {
            -self.num
        } else {
            self.num
        };
        let p: i128 = power_of_ten(places);
        proof {
            reveal_with_fuel(pow10, 10);
            lemma_whole_below(size as int, self.den as int, FRACTION_LIMIT as int);
        }
        let (whole, part): (i128, i128) = if size / self.den >= FRACTION_LIMIT {
            exact_units(size, self.den, p)
        } else {
            let units: i128 = double_units(size, self.den, p);
            (units / p, units % p)
        };
        let mut out: String = String::new();
        if self.num < 0 {
            proof {
                reveal_strlit("-");
            }
            out.append("-");
        }
        append_decimal(&mut out, whole as u128);
        proof {
            reveal_strlit(".");
        }
        out.append(".");
        append_padded(&mut out, part as u128, places);
        assert(out@ =~= fixed_text(self, places as nat));
        out
    }
}

/// A quotient is below a bound exactly if the dividend is below its multiple.
proof fn lemma_whole_below(size: int, den: int, bound: int)
    requires
        size >= 0,
        den > 0,
    ensures
        size / den < bound <==> size < bound * den,
{
    vstd::arithmetic::div_mod::lemma_fundamental_div_mod(size, den);
    let q = size / den;
    let r = size % den;
    assert(q < bound <==> size < bound * den) by (nonlinear_arith)
        requires
            size == den * q + r,
            0 <= r < den,
    ;
}

/// The exact size in units of `1 / p`, a tie to even, parted at the point.
fn exact_units(size: i128, den: i128, p: i128) -> (units: (i128, i128))
    requires
        size >= 0,
        den > 0,
        p >= 2,
        p % 2 == 0,
        4 * den * p <= i128::MAX,
    ensures
        ({
            let all = half_even(2 * size * p, den as int);
            units.0 == all / (p as int) && units.1 == all % (p as int)
        }),
        0 <= units.0,
        0 <= units.1 < p,
{
    let whole: i128 = size / den;
    let rest: i128 = size % den;
    proof {
        lemma_split_scaled(size as int, den as int, p as int);
        vstd::arithmetic::div_mod::lemma_fundamental_div_mod(size as int, den as int);
    }
    assert(0 <= 2 * rest * p <= i128::MAX && 2 * rest <= i128::MAX && 2 * den <= i128::MAX)
        by (nonlinear_arith)
        requires
            0 <= rest < den,
            2 <= p,
            4 * den * p <= i128::MAX,
    ;
    assert(rest > 0 ==> 2 * whole <= size) by (nonlinear_arith)
        requires
            0 <= rest < den,
            size == den * whole + rest,
            whole >= 0,
    ;
    assert(rest == 0 ==> 2 * rest * p == 0) by (nonlinear_arith);
    let twice: i128 = 2 * rest * p;
    let part: i128 = to_nearest(twice, den);
    if part == p {
        (whole + 1, 0)
    } else {
        (whole, part)
    }
}

/// `twice / (2 * den)` to the nearest integer, a tie to the even one.
fn to_nearest(twice: i128, den: i128) -> (n: i128)
    requires
        twice >= 0,
        0 < den,
        2 * den <= i128::MAX,
    ensures
        n == half_even(twice as int, den as int),
        0 <= n <= twice,
{
    let down: i128 = twice / (2 * den);
    let over: i128 = twice % (2 * den);
    assert(0 <= down && 2 * down <= down * (2 * den)) by (nonlinear_arith)
        requires
            down == (twice as int) / (2 * den),
            twice >= 0,
            den > 0,
    ;
    proof {
        vstd::arithmetic::div_mod::lemma_fundamental_div_mod(twice as int, 2 * den);
        assert((2 * den) * down == down * (2 * den)) by (nonlinear_arith);
    }
    if over > den || (over == den && down % 2 == 1) {
        down + 1
    } else {
        down
    }
}

/// The size of the nearest double-precision number in units of `1 / p`.
fn double_units(size: i128, den: i128, p: i128) -> (units: i128)
    requires
        0 <= size < FRACTION_LIMIT * den,
        den > 0,
        2 <= p <= 1_000_000_000,
        4 * den * p <= i128::MAX,
    ensures
        units == half_even(
            2 * significand(size as int, den as int) * p,
            fineness(size as int, den as int),
        ),
        units >= 0,
{
    let whole: i128 = size / den;
    let rest: i128 = size % den;
    proof {
        lemma_whole_below(size as int, den as int, FRACTION_LIMIT as int);
        lemma_whole_below(size as int, den as int, 1);
        vstd::arithmetic::div_mod::lemma_fundamental_div_mod(size as int, den as int);
    }
    if whole == 0 {
        assert(0 <= 4 * size * p <= i128::MAX && 4 * size <= i128::MAX) by (nonlinear_arith)
            requires
                0 <= size < den,
                2 <= p,
                4 * den * p <= i128::MAX,
        ;
        if 4 * size * p < den {
            proof {
                lemma_tiny_rounds_to_zero(size as int, den as int, p as int);
            }
            return 0;
        }
    } else {
        assert(4 * size * p >= den) by (nonlinear_arith)
            requires
                size >= den,
                den > 0,
                p >= 2,
        ;
    }
    assert(size > 0) by (nonlinear_arith)
        requires
            4 * size * p >= den,
            size >= 0,
            den > 0,
    ;
    let mut q: i128 = whole;
    let mut r: i128 = rest;
    let mut scale: i128 = 1;
    assert(size * 1 == size);
    assert(2 * den <= i128::MAX) by (nonlinear_arith)
        requires
            4 * den * p <= i128::MAX,
            p >= 2,
            den > 0,
    ;
    assert(den * whole == whole * den) by (nonlinear_arith);
    proof {
        lemma_scale_bound(size as int, den as int, p as int, q as int, r as int, 1);
    }
    while q < SIGNIFICAND_MIN
        invariant
            0 < size,
            den > 0,
            2 * den <= i128::MAX,
            2 <= p <= 1_000_000_000,
            4 * size * p >= den,
            0 <= q < FRACTION_LIMIT,
            0 <= r < den,
            1 <= scale < (q + 1) * (4 * p),
            q * den + r == size * scale,
            fineness(size as int, den as int) == scale * fineness(size * scale, den as int),
        decreases FRACTION_LIMIT * (4 * p) - scale,
    {
        let ghost old_q = q as int;
        let ghost old_r = r as int;
        let ghost old_scale = scale as int;
        assert(0 < size * scale < SIGNIFICAND_MIN * den) by (nonlinear_arith)
            requires
                q * den + r == size * scale,
                0 <= q < SIGNIFICAND_MIN,
                0 <= r < den,
                size > 0,
                scale >= 1,
        ;
        assert((q + 1) * (4 * p) <= SIGNIFICAND_MIN * 4_000_000_000) by (nonlinear_arith)
            requires
                0 <= q < SIGNIFICAND_MIN,
                2 <= p <= 1_000_000_000,
        ;
        let twice: i128 = 2 * r;
        if twice >= den {
            q = 2 * q + 1;
            r = twice - den;
        } else {
            q = 2 * q;
            r = twice;
        }
        scale = 2 * scale;
        proof {
            let f = fineness(2 * (size * old_scale), den as int);
            assert(size * scale == 2 * (size * old_scale)) by (nonlinear_arith)
                requires
                    scale == 2 * old_scale,
            ;
            assert(old_scale * (2 * f) == scale * f) by (nonlinear_arith)
                requires
                    scale == 2 * old_scale,
            ;
            assert((2 * old_q) * den == 2 * (old_q * den) && (2 * old_q + 1) * den == 2 * (old_q
                * den) + den) by (nonlinear_arith);
            lemma_scale_bound(
                size as int,
                den as int,
                p as int,
                q as int,
                r as int,
                scale as int,
            );
            assert((q + 1) * (4 * p) <= FRACTION_LIMIT * (4 * p)) by (nonlinear_arith)
                requires
                    0 <= q < FRACTION_LIMIT,
                    2 <= p,
            ;
        }
    }
    assert(size * scale >= SIGNIFICAND_MIN * den) by (nonlinear_arith)
        requires
            q * den + r == size * scale,
            q >= SIGNIFICAND_MIN,
            r >= 0,
            den > 0,
    ;
    assert((q + 1) * (4 * p) <= FRACTION_LIMIT * 4_000_000_000) by (nonlinear_arith)
        requires
            0 <= q < FRACTION_LIMIT,
            2 <= p <= 1_000_000_000,
    ;
    let m: i128 = if 2 * r > den || (2 * r == den && q % 2 == 1) {
        q + 1
    } else {
        q
    };
    proof {
        let twice = 2 * size * scale;
        assert(twice == (2 * den) * q + 2 * r) by (nonlinear_arith)
            requires
                twice == 2 * size * scale,
                q * den + r == size * scale,
        ;
        assert(q * (2 * den) == (2 * den) * q) by (nonlinear_arith);
        vstd::arithmetic::div_mod::lemma_fundamental_div_mod_converse(
            twice,
            2 * den,
            q as int,
            2 * r,
        );
        assert(scale * 1 == scale);
        assert(m == significand(size as int, den as int));
    }
    assert(0 <= 2 * m * p <= 2 * FRACTION_LIMIT * 1_000_000_000) by (nonlinear_arith)
        requires
            0 <= m <= FRACTION_LIMIT,
            2 <= p <= 1_000_000_000,
    ;
    to_nearest(2 * m * p, scale)
}

proof fn lemma_scale_bound(size: int, den: int, p: int, q: int, r: int, scale: int)
    requires
        den > 0,
        4 * size * p >= den,
        q * den + r == size * scale,
        0 <= r < den,
        scale >= 1,
        p >= 1,
    ensures
        scale < (q + 1) * (4 * p),
{
    let bound = (q + 1) * (4 * p);
    assert(den * scale < den * bound) by (nonlinear_arith)
        requires
            bound == (q + 1) * (4 * p),
            4 * size * p >= den,
            q * den + r == size * scale,
            0 <= r < den,
            scale >= 1,
            p >= 1,
            den > 0,
    {
        assert(den * scale <= (4 * size * p) * scale);
        assert((4 * size * p) * scale == (size * scale) * (4 * p));
        assert((size * scale) * (4 * p) < ((q + 1) * den) * (4 * p));
        assert(((q + 1) * den) * (4 * p) == den * bound);
    }
    assert(scale < bound) by (nonlinear_arith)
        requires
            den * scale < den * bound,
            den > 0,
    ;
}

/// With its fineness, a size has 53 binary digits before the point.
proof fn lemma_fineness(size: int, den: int)
    requires
        size > 0,
        den > 0,
    ensures
        fineness(size, den) >= 1,
        size * fineness(size, den) >= SIGNIFICAND_MIN * den,
        size < FRACTION_LIMIT * den ==> size * fineness(size, den) < FRACTION_LIMIT * den,
    decreases
            if size >= SIGNIFICAND_MIN * den {
                0
            } else {
                SIGNIFICAND_MIN * den - size
            },
{
    if size < SIGNIFICAND_MIN * den {
        lemma_fineness(2 * size, den);
        let f = fineness(2 * size, den);
        assert((2 * size) * f == size * (2 * f)) by (nonlinear_arith);
    } else {
        assert(size * 1 == size);
    }
}

/// What is less than a quarter of a unit is written as none.
proof fn lemma_tiny_rounds_to_zero(size: int, den: int, p: int)
    requires
        size >= 0,
        den > 0,
        p >= 1,
        4 * size * p < den,
    ensures
        half_even(2 * significand(size, den) * p, fineness(size, den)) == 0,
{
    let s = fineness(size, den);
    let m = significand(size, den);
    if size == 0 {
        assert(2 * 0 * s == 0) by (nonlinear_arith);
        assert(m == 0);
        assert(2 * m * p == 0) by (nonlinear_arith)
            requires
                m == 0,
        ;
    } else {
        lemma_fineness(size, den);
        law_half_even_is_nearest(size * s, den);
        assert(2 * size * s == 2 * (size * s)) by (nonlinear_arith);
        assert(0 <= m && m * den <= 2 * (size * s)) by (nonlinear_arith)
            requires
                -den <= 2 * (m * den - size * s) <= den,
                size * s >= SIGNIFICAND_MIN * den,
                den > 0,
        ;
        assert(2 * m * p < s) by (nonlinear_arith)
            requires
                m * den <= 2 * (size * s),
                4 * size * p < den,
                0 <= m,
                s >= 1,
                p >= 1,
                den > 0,
        {
            assert((2 * m * p) * den == (m * den) * (2 * p));
            assert((m * den) * (2 * p) <= (2 * (size * s)) * (2 * p));
            assert((2 * (size * s)) * (2 * p) == (4 * size * p) * s);
            assert((4 * size * p) * s < den * s);
        }
        assert(0 <= 2 * m * p) by (nonlinear_arith)
            requires
                0 <= m,
                p >= 1,
        ;
        vstd::arithmetic::div_mod::lemma_fundamental_div_mod_converse(
            2 * m * p,
            2 * s,
            0,
            2 * m * p,
        );
    }
}

/// Rounding is to the nearest: within half of the exact quotient, and even
/// where it is exactly half off.
pub proof fn law_half_even_is_nearest(top: int, den: int)
    requires
        den > 0,
    ensures
        ({
            let n = half_even(2 * top, den);
            let error = n * den - top;
            &&& -den <= 2 * error <= den
            &&& 2 * error == den || 2 * error == -den ==> n % 2 == 0
        }),
{
    let q = (2 * top) / (2 * den);
    vstd::arithmetic::div_mod::lemma_fundamental_div_mod(2 * top, 2 * den);
    assert((2 * den) * q == 2 * (q * den) && (q + 1) * den == q * den + den) by (nonlinear_arith);
}

impl Ratio {
    /// The fraction rounded to `places` decimals, a half away from zero.
    pub fn rounded(self, places: u32) -> (r: Ratio)
        requires
            self.writable(places as nat),
            i64::MIN <= self.num <= i64::MAX,
            places <= 9,
        ensures
            r == nearest_away(self, places as nat),
            r.num == if self.num < 0 {
                -scaled_up(self, places as nat)
            } else {
                scaled_up(self, places as nat)
            },
            r.den == pow10(places as nat),
    {
        let size: i128 = if self.num < 0 {
            -self.num
        } else {
            self.num
        };
        let p: i128 = power_of_ten(places);
        assert(2 * self.den <= i128::MAX / 2 && 0 <= 2 * size * p <= 2 * 0x8000_0000_0000_0000
            * 1_000_000_000) by (nonlinear_arith)
            requires
                0 <= size <= 0x8000_0000_0000_0000,
                1 <= p <= 1_000_000_000,
                0 < self.den,
                4 * self.den * p <= i128::MAX,
        ;
        let top: i128 = 2 * size * p + self.den;
        let units: i128 = top / (2 * self.den);
        assert(0 <= (top as int) / (2 * self.den) <= top) by (nonlinear_arith)
            requires
                top >= 0,
                self.den > 0,
        ;
        Ratio {
            num: if self.num < 0 {
                -units
            } else {
                units
            },
            den: p,
        }
    }
}

/// A fraction in range can be written with up to six decimals.
pub proof fn lemma_in_range_is_writable(r: Ratio, places: nat)
    requires
        r.in_range(),
        places <= 6,
    ensures
        r.writable(places),
{
    reveal_with_fuel(pow10, 7);
    let p = pow10(places);
    assert(1 <= p <= 1_000_000);
    assert(4 * r.den * p <= 4 * DEN_LIMIT * 1_000_000) by (nonlinear_arith)
        requires
            0 < r.den <= DEN_LIMIT,
            1 <= p <= 1_000_000,
    ;
}

/// A whole number of nanoseconds can be written in seconds without rounding.
pub proof fn lemma_seconds_are_writable(r: Ratio)
    requires
        r.den == 1_000_000_000,
        r.num > i128::MIN,
    ensures
        r.writable(9),
{
    reveal_with_fuel(pow10, 10);
    assert(pow10(9) == 1_000_000_000);
    assert(4 * r.den * pow10(9) == 4_000_000_000_000_000_000) by (nonlinear_arith)
        requires
            r.den == 1_000_000_000,
            pow10(9) == 1_000_000_000,
    ;
}

/// Rounding the part after the point alone gives the same units.
proof fn lemma_split_scaled(size: int, den: int, p: int)
    requires
        size >= 0,
        den > 0,
        p > 0,
        p % 2 == 0,
    ensures
        ({
            let whole = size / den;
            let rest = size % den;
            let part = half_even(2 * rest * p, den);
            let units = half_even(2 * size * p, den);
            &&& 0 <= rest < den
            &&& 0 <= part <= p
            &&& part < p ==> units / p == whole && units % p == part
            &&& part == p ==> units / p == whole + 1 && units % p == 0
        }),
{
    let whole = size / den;
    let rest = size % den;
    let twice = 2 * rest * p;
    let part = half_even(twice, den);
    let units = half_even(2 * size * p, den);
    let jump = whole * p;
    vstd::arithmetic::div_mod::lemma_fundamental_div_mod(size, den);
    assert(2 * size * p == jump * (2 * den) + twice) by (nonlinear_arith)
        requires
            size == den * whole + rest,
            jump == whole * p,
            twice == 2 * rest * p,
    ;
    assert(0 <= twice < p * (2 * den)) by (nonlinear_arith)
        requires
            twice == 2 * rest * p,
            0 <= rest < den,
            p > 0,
    ;
    vstd::arithmetic::div_mod::lemma_hoist_over_denominator(twice, jump, (2 * den) as nat);
    vstd::arithmetic::div_mod::lemma_mod_multiples_vanish(jump, twice, 2 * den);
    assert((2 * den) * jump == jump * (2 * den)) by (nonlinear_arith);
    let down = twice / (2 * den);
    assert(0 <= down < p) by (nonlinear_arith)
        requires
            down == twice / (2 * den),
            0 <= twice < p * (2 * den),
            den > 0,
    ;
    assert(jump == 2 * (whole * (p / 2))) by (nonlinear_arith)
        requires
            jump == whole * p,
            p % 2 == 0,
    ;
    assert(units == jump + part);
    if part < p {
        vstd::arithmetic::div_mod::lemma_fundamental_div_mod_converse(units, p, whole, part);
    } else {
        assert((whole + 1) * p == jump + p) by (nonlinear_arith)
            requires
                jump == whole * p,
        ;
        vstd::arithmetic::div_mod::lemma_fundamental_div_mod_converse(units, p, whole + 1, 0);
    }
}

/// Writing rounds twice, each time to the nearest and a tie to even: first to a
/// significand of 53 binary digits, over a power of two, and then that number
/// to the units written. Zero is written as zero, and what is too large for a
/// fraction in double precision is rounded once.
pub proof fn law_written_is_nearest(r: Ratio, places: nat)
    requires
        r.den > 0,
    ensures
        size_of(r) == 0 ==> scaled(r, places) == 0,
        size_of(r) >= FRACTION_LIMIT * r.den ==> ({
            let written = scaled(r, places) * r.den - size_of(r) * pow10(places);
            &&& -r.den <= 2 * written <= r.den
            &&& 2 * written == r.den || 2 * written == -r.den ==> scaled(r, places) % 2 == 0
        }),
        0 < size_of(r) < FRACTION_LIMIT * r.den ==> ({
            let f = fineness(size_of(r), r.den as int);
            let m = significand(size_of(r), r.den as int);
            let binary = m * r.den - size_of(r) * f;
            let written = scaled(r, places) * f - m * pow10(places);
            &&& f >= 1
            &&& SIGNIFICAND_MIN <= m <= FRACTION_LIMIT
            &&& -r.den <= 2 * binary <= r.den
            &&& 2 * binary == r.den || 2 * binary == -r.den ==> m % 2 == 0
            &&& -f <= 2 * written <= f
            &&& 2 * written == f || 2 * written == -f ==> scaled(r, places) % 2 == 0
        }),
{
    let size = size_of(r);
    let den = r.den as int;
    let f = fineness(size, den);
    let m = significand(size, den);
    if size == 0 {
        lemma_power_positive(places);
        assert(4 * size * pow10(places) == 0) by (nonlinear_arith)
            requires
                size == 0,
        ;
        lemma_tiny_rounds_to_zero(size, den, pow10(places));
    } else if size >= FRACTION_LIMIT * den {
        law_half_even_is_nearest(size * pow10(places), den);
        assert(2 * size * pow10(places) == 2 * (size * pow10(places))) by (nonlinear_arith);
    } else {
        lemma_fineness(size, den);
        law_half_even_is_nearest(size * f, den);
        assert(2 * size * f == 2 * (size * f)) by (nonlinear_arith);
        assert(SIGNIFICAND_MIN <= m <= FRACTION_LIMIT) by (nonlinear_arith)
            requires
                -den <= 2 * (m * den - size * f) <= den,
                SIGNIFICAND_MIN * den <= size * f < FRACTION_LIMIT * den,
                den > 0,
        ;
        law_half_even_is_nearest(m * pow10(places), f);
        assert(2 * m * pow10(places) == 2 * (m * pow10(places))) by (nonlinear_arith);
    }
}

proof fn lemma_power_positive(places: nat)
    ensures
        pow10(places) >= 1,
    decreases places,
{
    if places > 0 {
        lemma_power_positive((places - 1) as nat);
    }
}

/// Rounding half away from zero is within half a unit as well, and a fraction
/// exactly between two is taken to the greater size.
pub proof fn law_rounded_is_nearest(r: Ratio, places: nat)
    requires
        r.den > 0,
    ensures
        ({
            let error = scaled_up(r, places) * r.den - size_of(r) * pow10(places);
            -r.den < 2 * error <= r.den
        }),
{
    let p = pow10(places);
    let size = size_of(r);
    let top = 2 * size * p + r.den;
    let units = top / (2 * r.den);
    vstd::arithmetic::div_mod::lemma_fundamental_div_mod(top, 2 * r.den);
    assert(-r.den < 2 * (units * r.den - size * p) <= r.den) by (nonlinear_arith)
        requires
            top == 2 * size * p + r.den,
            top == (2 * r.den) * units + top % (2 * r.den),
            0 <= top % (2 * r.den) < 2 * r.den,
            r.den > 0,
    ;
}

} // verus!
