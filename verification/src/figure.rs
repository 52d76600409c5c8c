//! A reading written with one digit after the decimal point.

use crate::decimal::{decimal_text, digit_char, digit_str, Natural};
use crate::reading::{unit_scale, Reading, FRACTION_SPAN, SIGN_BIT};
use vstd::arithmetic::div_mod::*;
use vstd::arithmetic::power2::*;
use vstd::prelude::*;
use vstd::string::*;

verus! {

/// `num / den` as the nearest whole number; of two equally near ones, the
/// even one.
pub open spec fn round_half_even(num: nat, den: nat) -> nat
    recommends
        den > 0,
{
    let q = num / den;
    let r = num % den;
    if 2 * r < den || (2 * r == den && q % 2 == 0) {
        q
    } else {
        q + 1
    }
}

/// Ten times the magnitude of a finite reading, rounded to a whole number.
pub open spec fn tenths(r: Reading) -> nat {
    round_half_even(r.units() * 10, unit_scale())
}

/// The sign that is written in front of a reading that is no NaN.
pub open spec fn sign_text(r: Reading) -> Seq<char> {
    if r.is_sign_negative_spec() {
        "-"@
    } else {
        Seq::empty()
    }
}

/// The reading with one digit after the point: `NaN`, `inf` and `-inf` for
/// what is no number, else the sign, the whole part and the tenth of the
/// rounded magnitude. A negative zero, and a negative value that rounds to
/// zero, keep their sign.
pub open spec fn one_decimal_text(r: Reading) -> Seq<char> {
    if r.is_nan_spec() {
        "NaN"@
    } else if r.is_infinite_spec() {
        sign_text(r) + "inf"@
    } else {
        sign_text(r) + decimal_text(tenths(r) / 10) + "."@ + seq![digit_char(tenths(r) % 10)]
    }
}

/// The rounded quotient is a nearest whole number: it is off by half at
/// most, and where two are equally near it is the even one.
pub proof fn law_round_is_nearest(num: nat, den: nat)
    requires
        den > 0,
    ensures
        2 * (round_half_even(num, den) * den - num) <= den,
        2 * (num - round_half_even(num, den) * den) <= den,
        2 * (num % den) == den ==> round_half_even(num, den) % 2 == 0,
{
    let q = num / den;
    let r = num % den;
    lemma_fundamental_div_mod(num as int, den as int);
    assert((q + 1) * den == q * den + den) by (nonlinear_arith);
    assert(den * q == q * den) by (nonlinear_arith);
}

/// A common factor of both sides does not change the rounded quotient.
pub proof fn lemma_round_common_factor(num: nat, den: nat, c: nat)
    requires
        den > 0,
        c > 0,
    ensures
        round_half_even(c * num, c * den) == round_half_even(num, den),
{
    lemma_div_multiples_vanish_quotient(c as int, num as int, den as int);
    lemma_truncate_middle(num as int, c as int, den as int);
    let r = num % den;
    assert(2 * (c * r) < c * den <==> 2 * r < den) by (nonlinear_arith)
        requires
            c > 0,
    ;
    assert(2 * (c * r) == c * den <==> 2 * r == den) by (nonlinear_arith)
        requires
            c > 0,
    ;
}

/// A whole quotient is its own rounding.
pub proof fn lemma_round_exact(whole: nat, den: nat)
    requires
        den > 0,
    ensures
        round_half_even(whole * den, den) == whole,
{
    lemma_div_by_multiple(whole as int, den as int);
    lemma_mod_multiples_basic(whole as int, den as int);
}

/// A reading that is a whole number is written as the numeral of that
/// number, a point and a zero.
pub proof fn law_whole_reading_text(r: Reading, k: nat)
    requires
        r.is_whole(k),
    ensures
        tenths(r) == 10 * k,
        one_decimal_text(r) == decimal_text(k) + "."@ + seq!['0'],
{
    lemma_pow2_pos(1074);
    assert(r.units() * 10 == (10 * k) * unit_scale()) by (nonlinear_arith)
        requires
            r.units() == k * unit_scale(),
    ;
    lemma_round_exact(10 * k, unit_scale());
    assert(sign_text(r) + decimal_text(k) =~= decimal_text(k));
}

/// `num / 2^shift`, rounded to the nearest whole number, a tie to the even one.
pub fn rounded_shift(num: u64, shift: u64) -> (q: u64)
    ensures
        q == round_half_even(num as nat, pow2(shift as nat)),
{
    if shift >= 64 {
        proof {
            lemma2_to64();
            lemma_pow2_unfold(65);
            if shift > 65 {
                lemma_pow2_strictly_increases(65, shift as nat);
            }
            assert(shift == 64 ==> pow2(shift as nat) == 0x1_0000_0000_0000_0000);
            assert(shift > 64 ==> pow2(shift as nat) >= 0x2_0000_0000_0000_0000);
            lemma_small_mod(num as nat, pow2(shift as nat));
            lemma_basic_div(num as int, pow2(shift as nat) as int);
        }
        if shift == 64 && num > 0x8000_0000_0000_0000 {
            1
        } else {
            0
        }
    } else {
        let den: u64 = 1u64 << shift;
        proof {
            vstd::bits::lemma_u64_pow2_no_overflow(shift as nat);
            vstd::bits::lemma_u64_shl_is_mul(1, shift);
        }
        let q: u64 = num / den;
        let r: u64 = num % den;
        proof {
            lemma2_to64_rest();
            if shift < 63 {
                lemma_pow2_strictly_increases(shift as nat, 63);
            }
            lemma_fundamental_div_mod(num as int, den as int);
            if r > 0 {
                assert(q * 2 <= num) by (nonlinear_arith)
                    requires
                        num == den * q + r,
                        den >= 2,
                ;
            }
        }
        if 2 * r > den || (2 * r == den && q % 2 == 1) {
            q + 1
        } else {
            q
        }
    }
}

/// The whole part and the tenth of a finite reading written with one
/// digit after the point.
fn finite_parts(r: Reading) -> (parts: (Natural, u8))
    requires
        r.is_finite_spec(),
    ensures
        parts.0@ == tenths(r) / 10,
        parts.1 == tenths(r) % 10,
{
    let magnitude: u64 = r.bits % SIGN_BIT;
    let exponent: u64 = magnitude / FRACTION_SPAN;
    let fraction: u64 = magnitude % FRACTION_SPAN;
    let significand: u64 = if exponent == 0 {
        fraction
    } else {
        FRACTION_SPAN + fraction
    };
    let doublings: u64 = if exponent == 0 {
        0
    } else {
        exponent - 1
    };
    if doublings >= 1074 {
        let mut whole: Natural = Natural::from_u64(significand);
        let mut done: u64 = 1074;
        proof {
            lemma2_to64();
            assert(significand * pow2(0) == significand) by (nonlinear_arith)
                requires
                    pow2(0) == 1,
            ;
        }
        while done < doublings
            invariant
                1074 <= done <= doublings,
                whole@ == significand * pow2((done - 1074) as nat),
            decreases doublings - done,
        {
            proof {
                lemma_pow2_unfold((done + 1 - 1074) as nat);
                assert(2 * (significand * pow2((done - 1074) as nat)) == significand * pow2(
                    (done + 1 - 1074) as nat,
                )) by (nonlinear_arith)
                    requires
                        pow2((done + 1 - 1074) as nat) == 2 * pow2((done - 1074) as nat),
                ;
            }
            whole = whole.doubled();
            done = done + 1;
        }
        proof {
            let extra = (doublings - 1074) as nat;
            lemma_pow2_adds(extra, 1074);
            lemma_pow2_pos(1074);
            assert(r.units() * 10 == (whole@ * 10) * pow2(1074)) by (nonlinear_arith)
                requires
                    r.units() == significand * pow2(doublings as nat),
                    pow2(doublings as nat) == pow2(extra) * pow2(1074),
                    whole@ == significand * pow2(extra),
            ;
            lemma_round_exact(whole@ * 10, pow2(1074));
        }
        (whole, 0)
    } else {
        let scaled: u64 = significand * 10;
        let rounded: u64 = rounded_shift(scaled, 1074 - doublings);
        proof {
            let shift = (1074 - doublings) as nat;
            lemma_pow2_adds(doublings as nat, shift);
            lemma_pow2_pos(doublings as nat);
            lemma_pow2_pos(shift);
            assert(r.units() * 10 == pow2(doublings as nat) * scaled) by (nonlinear_arith)
                requires
                    r.units() == significand * pow2(doublings as nat),
                    scaled == significand * 10,
            ;
            lemma_round_common_factor(scaled as nat, pow2(shift), pow2(doublings as nat));
        }
        (Natural::from_u64(rounded / 10), (rounded % 10) as u8)
    }
}

/// The reading with one digit after the decimal point.
pub fn one_decimal(r: Reading) -> (text: String)
    ensures
        text@ == one_decimal_text(r),
{
    if r.is_nan() {
        return String::from_str("NaN");
    }
    let mut text: String = if r.is_sign_negative() {
        String::from_str("-")
    } else {
        String::new()
    };
    if r.is_infinite() {
        text.append("inf");
        return text;
    }
    let (whole, tenth) = finite_parts(r);
    let numeral: String = whole.to_text();
    text.append(numeral.as_str());
    text.append(".");
    text.append(digit_str(tenth));
    text
}

} // verus!
