//! What a fraction is written as, and rounded to.

use vstd::arithmetic::power::*;
use vstd::prelude::*;

#[allow(unused_imports)]
use crate::ratio::{
    fineness, fixed_text, law_rounded_is_nearest, law_written_is_nearest, nearest_away, pow10,
    scaled, scaled_up, significand, size_of, FRACTION_LIMIT, SIGNIFICAND_MIN,
};
use crate::ratio::Ratio;
#[allow(unused_imports)]
use crate::text::{all_digits, decimal, digits_value, padded, unsigned_number};
#[allow(unused_imports)]
use crate::text_laws::{law_decimal_is_canonical, law_padded_fills_the_width};

verus! {

/// A decimal place more is ten times as many units.
pub proof fn law_places_are_tenths(places: nat)
    ensures
        pow10(places) == pow(10, places),
        pow10(places) >= 1,
    decreases places,
{
    if places == 0 {
        lemma_pow0(10);
    } else {
        law_places_are_tenths((places - 1) as nat);
        lemma_pow_adds(10, 1, (places - 1) as nat);
        lemma_pow1(10);
    }
}

/// The last binary place is chosen so that the number has 53 binary digits: it
/// is a power of two, and no more of one than a number below them needs.
pub proof fn law_fineness_gives_53_digits(size: int, den: int) -> (k: nat)
    requires
        den > 0,
        size > 0,
    ensures
        fineness(size, den) == pow(2, k),
        k == 0 <==> size >= 0x10_0000_0000_0000 * den,
        k > 0 ==> 0x10_0000_0000_0000 * den <= size * pow(2, k) < 0x20_0000_0000_0000 * den,
    decreases
            if size >= 0x10_0000_0000_0000 * den {
                0
            } else {
                0x10_0000_0000_0000 * den - size
            },
{
    lemma_pow0(2);
    if size >= 0x10_0000_0000_0000 * den {
        0
    } else {
        let j = law_fineness_gives_53_digits(2 * size, den);
        lemma_pow_adds(2, 1, j);
        lemma_pow1(2);
        let f = pow(2, j);
        assert((2 * size) * f == size * (2 * f)) by (nonlinear_arith);
        j + 1
    }
}

/// What stands behind a written fraction. Read back, the text is a sign, and a
/// number of units of the last decimal. These are the units nearest to the
/// double-precision number nearest to the fraction, each time with a tie to
/// even; and those nearest to the fraction itself where it is too large for such
/// a number to have a fractional part.
pub proof fn law_text_is_the_nearest_double(r: Ratio, places: nat) -> (read: (
    Seq<char>,
    Seq<char>,
    nat,
    int,
))
    requires
        r.den > 0,
    ensures
        ({
            let (whole, fraction, k, m) = read;
            let size = if r.num < 0 {
                -r.num
            } else {
                r.num as int
            };
            let sign = if r.num < 0 {
                seq!['-']
            } else {
                Seq::<char>::empty()
            };
            let unit = pow(10, places);
            let units = digits_value(whole) * unit + digits_value(fraction);
            let f = pow(2, k);
            &&& fixed_text(r, places) == sign + whole + seq!['.'] + fraction
            &&& unsigned_number(whole) == Some(digits_value(whole))
            &&& whole.len() == 1 || whole[0] != '0'
            &&& fraction.len() == places
            &&& all_digits(fraction)
            &&& size == 0 ==> units == 0
            &&& size >= 0x20_0000_0000_0000 * r.den ==> ({
                let off = units * r.den - size * unit;
                &&& -r.den <= 2 * off <= r.den
                &&& 2 * off == r.den || 2 * off == -r.den ==> units % 2 == 0
            })
            &&& 0 < size < 0x20_0000_0000_0000 * r.den ==> ({
                let binary = m * r.den - size * f;
                let off = units * f - m * unit;
                &&& k == 0 <==> size >= 0x10_0000_0000_0000 * r.den
                &&& 0x10_0000_0000_0000 <= m <= 0x20_0000_0000_0000
                &&& -r.den <= 2 * binary <= r.den
                &&& 2 * binary == r.den || 2 * binary == -r.den ==> m % 2 == 0
                &&& -f <= 2 * off <= f
                &&& 2 * off == f || 2 * off == -f ==> units % 2 == 0
            })
        }),
{
    law_places_are_tenths(places);
    law_written_is_nearest(r, places);
    let size = size_of(r);
    let den = r.den as int;
    let unit = pow(10, places);
    let n = scaled(r, places);
    let k = if size > 0 {
        law_fineness_gives_53_digits(size, den)
    } else {
        0
    };
    let m = significand(size, den);
    lemma_units_are_natural(r, places);
    let whole = decimal(n / unit);
    let fraction = padded(n % unit, places);
    assert(n / unit >= 0 && 0 <= n % unit < unit && (n / unit) * unit + n % unit == n)
        by (nonlinear_arith)
        requires
            n >= 0,
            unit >= 1,
    ;
    law_decimal_is_canonical(n / unit);
    law_padded_fills_the_width(n % unit, places, unit);
    assert(digits_value(whole) == n / unit) by {
        assert(unsigned_number(whole) == Some(n / unit));
        assert(whole[0] != '+');
    }
    if n / unit == 0 {
        assert(whole.len() == 1);
    }
    (whole, fraction, k, m)
}

proof fn lemma_units_are_natural(r: Ratio, places: nat)
    requires
        r.den > 0,
    ensures
        scaled(r, places) >= 0,
{
    law_places_are_tenths(places);
    law_written_is_nearest(r, places);
    let size = size_of(r);
    let den = r.den as int;
    let p = pow10(places);
    let n = scaled(r, places);
    if size >= FRACTION_LIMIT * den {
        assert(n >= 0) by (nonlinear_arith)
            requires
                -den <= 2 * (n * den - size * p),
                den > 0,
                size >= 0,
                p >= 1,
        ;
    } else if size > 0 {
        let f = fineness(size, den);
        let m = significand(size, den);
        assert(n >= 0) by (nonlinear_arith)
            requires
                -f <= 2 * (n * f - m * p),
                f >= 1,
                m >= 0,
                p >= 1,
        ;
    }
}

/// Rounding to decimals keeps the sign, stays within half a unit of the last of
/// them, and takes a half to the greater size.
pub proof fn law_rounding_is_half_away(r: Ratio, places: nat)
    requires
        r.den > 0,
        places <= 9,
        i64::MIN <= r.num <= i64::MAX,
    ensures
        ({
            let n = nearest_away(r, places);
            let off = n.num * r.den - r.num * n.den;
            &&& n.den == pow(10, places)
            &&& r.num >= 0 ==> n.num >= 0 && -r.den < 2 * off <= r.den
            &&& r.num < 0 ==> n.num <= 0 && -r.den <= 2 * off < r.den
        }),
{
    law_places_are_tenths(places);
    law_rounded_is_nearest(r, places);
    lemma_pow_increases(10, places, 9);
    reveal_with_fuel(pow10, 10);
    law_places_are_tenths(9);
    let p = pow10(places);
    let size = size_of(r);
    let u = scaled_up(r, places);
    let den = r.den as int;
    assert(0 <= u <= 2 * size * p + 1) by (nonlinear_arith)
        requires
            -den < 2 * (u * den - size * p) <= den,
            den > 0,
            size >= 0,
            p >= 1,
    ;
    assert(2 * size * p <= 0x1_0000_0000_0000_0000 * 1_000_000_000) by (nonlinear_arith)
        requires
            0 <= size <= 0x8000_0000_0000_0000,
            1 <= p <= 1_000_000_000,
    ;
    assert((-u) * den == -(u * den) && (-size) * p == -(size * p)) by (nonlinear_arith);
}

} // verus!
