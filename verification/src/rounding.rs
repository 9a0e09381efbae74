//! Rounding to single precision, in whole numbers.
//!
//! A binary floating-point value of single precision has 24 significant
//! bits. Between `2^23` and `2^24` such values are the whole numbers; from
//! there on their spacing doubles with every doubling of the value. A
//! quotient of at least `2^23` is therefore rounded to single precision by
//! rounding it to the nearest multiple of that spacing, a tie going to the
//! multiple with the even factor. Smaller quantities are brought into that
//! range by a fixed power of two before they are rounded.
use vstd::prelude::*;
use vstd::arithmetic::div_mod::{lemma_div_denominator, lemma_fundamental_div_mod};

verus! {

/// `2^24`: the first whole number at which single precision skips a
/// neighbour.
pub const SIGNIFICAND_LIMIT: u128 = 16777216;

/// The largest dividend that [`round_quotient`] takes.
pub const DIVIDEND_LIMIT: u128 = 0x10000000000000000000000000;

/// The spacing of single-precision values around the whole number
/// `quotient`: the least power of two that divides it down to under `2^24`.
pub open spec fn spacing(quotient: nat) -> nat
    decreases quotient,
{
    if quotient < 16777216 {
        1
    } else {
        2 * spacing(quotient / 2)
    }
}

/// The whole number nearest to `dividend / divisor`; of two equally near
/// ones, the even one.
pub open spec fn nearest_even(dividend: nat, divisor: nat) -> nat {
    let whole = dividend / divisor;
    let rest = dividend % divisor;
    if 2 * rest > divisor || (2 * rest == divisor && whole % 2 == 1) {
        whole + 1
    } else {
        whole
    }
}

/// `dividend / divisor` rounded to the nearest multiple of the spacing
/// around it, ties to the even factor. For a quotient of at least `2^23`,
/// and for every whole quotient under `2^24`, this is the quotient rounded
/// to single precision.
pub open spec fn rounded(dividend: nat, divisor: nat) -> nat {
    let step = spacing(dividend / divisor);
    nearest_even(dividend, divisor * step) * step
}

/// The spacing is at least one, and a number holds at least `2^23` steps
/// of any spacing above one.
pub proof fn lemma_spacing_bounds(quotient: nat)
    ensures
        spacing(quotient) >= 1,
        spacing(quotient) == 1 || spacing(quotient) * 8388608 <= quotient,
    decreases quotient,
{
    if quotient >= 16777216 {
        lemma_spacing_bounds(quotient / 2);
    }
}

/// Rounding moves a whole number down by less than the spacing around
/// it, which is no more than its `2^23`th part.
pub proof fn lemma_rounded_is_near(number: nat)
    ensures
        rounded(number, 1) + number / 8388608 >= number,
{
    let step = spacing(number);
    lemma_spacing_bounds(number);
    lemma_fundamental_div_mod(number as int, step as int);
    vstd::arithmetic::div_mod::lemma_mod_bound(number as int, step as int);
    assert(number / 1 == number);
    assert(1 * step == step) by (nonlinear_arith);
    assert(nearest_even(number, step) >= number / step);
    assert(nearest_even(number, step) * step >= step * (number / step)) by (nonlinear_arith)
        requires
            nearest_even(number, step) >= number / step,
            step >= 1,
    ;
}

/// Tells whether a number is a power of two.
pub open spec fn power_of_two(number: nat) -> bool
    decreases number,
{
    number == 1 || (number > 1 && number % 2 == 0 && power_of_two(number / 2))
}

/// The spacing around a whole number under `2^24 * power` divides the
/// power of two `power`.
pub proof fn lemma_spacing_divides(quotient: nat, power: nat)
    requires
        power_of_two(power),
        quotient < 16777216 * power,
    ensures
        spacing(quotient) >= 1,
        power % spacing(quotient) == 0,
    decreases power,
{
    if quotient >= 16777216 {
        lemma_spacing_divides(quotient / 2, power / 2);
        let half = spacing(quotient / 2);
        let times = (power / 2) / half;
        lemma_fundamental_div_mod((power / 2) as int, half as int);
        assert(power == (2 * half) * times) by (nonlinear_arith)
            requires
                power / 2 == half * times,
                power == 2 * (power / 2),
        ;
        vstd::arithmetic::div_mod::lemma_fundamental_div_mod_converse(
            power as int,
            (2 * half) as int,
            times as int,
            0,
        );
    }
}

/// Rounding a whole number does not fall below a multiple of the spacing
/// around it that the number itself does not fall below.
pub proof fn lemma_rounded_reaches(number: nat, multiple: nat)
    requires
        multiple <= number,
        spacing(number) >= 1,
        multiple % spacing(number) == 0,
    ensures
        rounded(number, 1) >= multiple,
{
    let step = spacing(number);
    let times = multiple / step;
    lemma_fundamental_div_mod(multiple as int, step as int);
    lemma_fundamental_div_mod(number as int, step as int);
    vstd::arithmetic::div_mod::lemma_div_is_ordered(multiple as int, number as int, step as int);
    assert(number / 1 == number);
    assert(1 * step == step) by (nonlinear_arith);
    assert(nearest_even(number, step) >= number / step);
    assert(nearest_even(number, step) * step >= multiple) by (nonlinear_arith)
        requires
            nearest_even(number, step) >= number / step,
            number / step >= times,
            multiple == step * times,
            step >= 1,
    ;
}

/// Computes the spacing around a whole number.
fn spacing_of(quotient: u128) -> (step: u128)
    requires
        quotient < DIVIDEND_LIMIT,
    ensures
        step == spacing(quotient as nat),
        step >= 1,
        step == 1 || step * 8388608 <= quotient,
{
    let mut step: u128 = 1;
    let mut top: u128 = quotient;
    while top >= SIGNIFICAND_LIMIT
        invariant
            spacing(quotient as nat) == step * spacing(top as nat),
            step * top <= quotient,
            step >= 1,
            step == 1 || top >= 8388608,
            quotient < DIVIDEND_LIMIT,
        decreases top,
    {
        let ghost before = top;
        let ghost wide = step;
        proof {
            assert((wide * 2) * spacing((before / 2) as nat) == wide * (2 * spacing(
                (before / 2) as nat,
            ))) by (nonlinear_arith);
            assert((wide * 2) * (before / 2) <= wide * before) by (nonlinear_arith)
                requires
                    wide >= 1,
                    before >= 0,
            ;
            assert(wide <= wide * before) by (nonlinear_arith)
                requires
                    wide >= 1,
                    before >= 1,
            ;
        }
        top = top / 2;
        step = step * 2;
    }
    proof {
        assert(spacing(top as nat) == 1);
        assert(step * spacing(top as nat) == step) by (nonlinear_arith)
            requires
                spacing(top as nat) == 1,
        ;
        assert(step == 1 || step * 8388608 <= quotient) by (nonlinear_arith)
            requires
                step * top <= quotient,
                step >= 1,
                step == 1 || top >= 8388608,
        ;
    }
    step
}

/// Rounds the quotient of two whole numbers to the nearest multiple of the
/// spacing around it, ties to even.
pub fn round_quotient(dividend: u128, divisor: u128) -> (nearest: u128)
    requires
        0 < divisor < SIGNIFICAND_LIMIT,
        dividend < DIVIDEND_LIMIT,
    ensures
        nearest == rounded(dividend as nat, divisor as nat),
        nearest <= dividend / divisor + (dividend / divisor) / 8388608 + 1,
        nearest + (dividend / divisor) / 8388608 >= dividend / divisor,
{
    let quotient: u128 = dividend / divisor;
    proof {
        lemma_fundamental_div_mod(dividend as int, divisor as int);
        assert(quotient <= dividend) by (nonlinear_arith)
            requires
                dividend == divisor * quotient + (dividend % divisor),
                dividend % divisor >= 0,
                divisor >= 1,
                quotient >= 0,
        ;
    }
    let step: u128 = spacing_of(quotient);
    proof {
        assert(0 < divisor * step < 0x10000000000000000000000000 * 0x1000000)
            by (nonlinear_arith)
            requires
                0 < divisor < 0x1000000,
                1 <= step <= 0x10000000000000000000000000,
        ;
    }
    let scaled: u128 = divisor * step;
    let whole: u128 = dividend / scaled;
    let rest: u128 = dividend % scaled;
    proof {
        lemma_div_denominator(dividend as int, divisor as int, step as int);
        assert(whole == quotient / step);
        lemma_fundamental_div_mod(quotient as int, step as int);
        assert(whole * step <= quotient) by (nonlinear_arith)
            requires
                quotient == step * whole + (quotient % step),
                quotient % step >= 0,
        ;
        assert((whole + 1) * step == whole * step + step) by (nonlinear_arith);
    }
    let nearest: u128 = if 2 * rest > scaled || (2 * rest == scaled && whole % 2 == 1) {
        whole + 1
    } else {
        whole
    };
    nearest * step
}

} // verus!
