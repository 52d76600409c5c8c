//! Measurements as IEEE-754 binary64 values, held by their bit pattern.
//!
//! A pattern is a sign bit, an exponent field `e` of 11 bits and a fraction
//! field `f` of 52 bits. With `e` from 1 to 2046 it stands for the normal
//! value `(2^52 + f) * 2^(e - 1075)`, with `e == 0` for the subnormal value
//! `f * 2^-1074`, and with `e == 2047` for an infinity (`f == 0`) or a NaN.
//! So every finite value is a whole multiple of 2^-1074, and the magnitude
//! of a reading is modelled as a natural number of such units:
//! `(2^52 + f) * 2^(e - 1)` for a normal value, `f` for a subnormal one.

use vstd::arithmetic::power2::*;
use vstd::prelude::*;

verus! {

/// The bit that holds the sign.
pub const SIGN_BIT: u64 = 0x8000_0000_0000_0000;

/// Number of values the 52-bit fraction field can take.
pub const FRACTION_SPAN: u64 = 0x0010_0000_0000_0000;

/// The exponent field of infinities and NaNs.
pub const TOP_EXPONENT: u64 = 2047;

/// A measured quantity: one binary64 value.
#[derive(Clone, Copy, Debug, PartialEq, Eq, Structural)]
pub struct Reading {
    pub bits: u64,
}

/// How many units make one: 2^1074.
pub open spec fn unit_scale() -> nat {
    pow2(1074)
}

impl Reading {
    /// The sign bit is set (also on negative zero).
    pub open spec fn is_sign_negative_spec(self) -> bool {
        self.bits >= SIGN_BIT
    }

    /// The bit pattern with the sign bit cleared.
    pub open spec fn magnitude_bits(self) -> nat {
        (self.bits % SIGN_BIT) as nat
    }

    /// The 11 bits below the sign bit.
    pub open spec fn exponent_field(self) -> nat {
        self.magnitude_bits() / (FRACTION_SPAN as nat)
    }

    /// The lowest 52 bits.
    pub open spec fn fraction_field(self) -> nat {
        self.magnitude_bits() % (FRACTION_SPAN as nat)
    }

    /// The pattern stands for no number.
    pub open spec fn is_nan_spec(self) -> bool {
        self.exponent_field() == TOP_EXPONENT && self.fraction_field() != 0
    }

    /// The pattern stands for one of the two infinities.
    pub open spec fn is_infinite_spec(self) -> bool {
        self.exponent_field() == TOP_EXPONENT && self.fraction_field() == 0
    }

    /// The pattern stands for a number: a zero, a subnormal or a normal
    /// value.
    pub open spec fn is_finite_spec(self) -> bool {
        self.exponent_field() < TOP_EXPONENT
    }

    /// The fraction field, with the implicit leading one of a normal value.
    pub open spec fn significand(self) -> nat {
        if self.exponent_field() == 0 {
            self.fraction_field()
        } else {
            FRACTION_SPAN as nat + self.fraction_field()
        }
    }

    /// How many times the significand is doubled to count units.
    pub open spec fn doublings(self) -> nat {
        if self.exponent_field() == 0 {
            0
        } else {
            (self.exponent_field() - 1) as nat
        }
    }

    /// The magnitude in units of 2^-1074: `|value| == units / unit_scale()`.
    /// For an infinity it is a number above the units of every finite value.
    pub open spec fn units(self) -> nat {
        self.significand() * pow2(self.doublings())
    }

    /// The value in units of 2^-1074, with its sign. Both zeros give 0.
    pub open spec fn signed_units(self) -> int {
        if self.is_sign_negative_spec() {
            -(self.units() as int)
        } else {
            self.units() as int
        }
    }

    /// IEEE `<`: false as soon as one side is a NaN.
    pub open spec fn lt_spec(self, other: Reading) -> bool {
        !self.is_nan_spec() && !other.is_nan_spec() && self.signed_units() < other.signed_units()
    }

    /// IEEE `>=`: false as soon as one side is a NaN.
    pub open spec fn ge_spec(self, other: Reading) -> bool {
        !self.is_nan_spec() && !other.is_nan_spec() && self.signed_units() >= other.signed_units()
    }

    /// The value is less than the whole number `k`. Never so for a NaN.
    pub open spec fn below(self, k: int) -> bool {
        if self.is_nan_spec() {
            false
        } else if self.is_infinite_spec() {
            self.is_sign_negative_spec()
        } else {
            self.signed_units() < k * unit_scale()
        }
    }

    /// The value is the whole number `k` or more. Never so for a NaN.
    pub open spec fn at_least(self, k: int) -> bool {
        if self.is_nan_spec() {
            false
        } else if self.is_infinite_spec() {
            !self.is_sign_negative_spec()
        } else {
            self.signed_units() >= k * unit_scale()
        }
    }

    /// The reading is the whole number `k`, with a positive sign.
    pub open spec fn is_whole(self, k: nat) -> bool {
        &&& self.is_finite_spec()
        &&& !self.is_sign_negative_spec()
        &&& self.units() == k * unit_scale()
    }

    /// The reading with this bit pattern.
    pub fn from_bits(bits: u64) -> (r: Reading)
        ensures
            r.bits == bits,
    {
        Reading { bits }
    }

    /// The bit pattern of the reading.
    pub fn to_bits(self) -> (bits: u64)
        ensures
            bits == self.bits,
    {
        self.bits
    }

    /// Whether the sign bit is set.
    #[verifier::when_used_as_spec(is_sign_negative_spec)]
    pub fn is_sign_negative(self) -> (b: bool)
        ensures
            b == self.is_sign_negative_spec(),
    {
        self.bits >= SIGN_BIT
    }

    /// Whether the reading is a NaN.
    #[verifier::when_used_as_spec(is_nan_spec)]
    pub fn is_nan(self) -> (b: bool)
        ensures
            b == self.is_nan_spec(),
    {
        let magnitude: u64 = self.bits % SIGN_BIT;
        magnitude / FRACTION_SPAN == TOP_EXPONENT && magnitude % FRACTION_SPAN != 0
    }

    /// Whether the reading is an infinity.
    #[verifier::when_used_as_spec(is_infinite_spec)]
    pub fn is_infinite(self) -> (b: bool)
        ensures
            b == self.is_infinite_spec(),
    {
        let magnitude: u64 = self.bits % SIGN_BIT;
        magnitude / FRACTION_SPAN == TOP_EXPONENT && magnitude % FRACTION_SPAN == 0
    }

    /// IEEE `<` on the two values.
    #[verifier::when_used_as_spec(lt_spec)]
    pub fn lt(self, other: Reading) -> (b: bool)
        ensures
            b == self.lt_spec(other),
    {
        if self.is_nan() || other.is_nan() {
            return false;
        }
        let mine: u64 = self.bits % SIGN_BIT;
        let theirs: u64 = other.bits % SIGN_BIT;
        proof {
            if mine < theirs {
                lemma_units_order(self, other);
            }
            if theirs < mine {
                lemma_units_order(other, self);
            }
            lemma_units_zero(self);
            lemma_units_zero(other);
        }
        if self.bits >= SIGN_BIT {
            if other.bits >= SIGN_BIT {
                theirs < mine
            } else {
                mine != 0 || theirs != 0
            }
        } else {
            if other.bits >= SIGN_BIT {
                false
            } else {
                mine < theirs
            }
        }
    }

    /// IEEE `>=` on the two values.
    #[verifier::when_used_as_spec(ge_spec)]
    pub fn ge(self, other: Reading) -> (b: bool)
        ensures
            b == self.ge_spec(other),
    {
        if self.is_nan() || other.is_nan() {
            return false;
        }
        !self.lt(other)
    }
}

/// A larger magnitude pattern counts more units.
pub proof fn lemma_units_order(a: Reading, b: Reading)
    requires
        a.magnitude_bits() < b.magnitude_bits(),
    ensures
        a.units() < b.units(),
{
    let span = FRACTION_SPAN as nat;
    let (ea, fa) = (a.exponent_field(), a.fraction_field());
    let (eb, fb) = (b.exponent_field(), b.fraction_field());
    let (da, db) = (a.doublings(), b.doublings());
    assert(a.magnitude_bits() == ea * span + fa && b.magnitude_bits() == eb * span + fb) by {
        vstd::arithmetic::div_mod::lemma_fundamental_div_mod(a.magnitude_bits() as int, span as int);
        vstd::arithmetic::div_mod::lemma_fundamental_div_mod(b.magnitude_bits() as int, span as int);
    }
    assert(ea <= eb) by {
        if ea > eb {
            assert(ea * span >= (eb + 1) * span) by (nonlinear_arith)
                requires
                    ea >= eb + 1,
            ;
            assert((eb + 1) * span == eb * span + span) by (nonlinear_arith);
        }
    }
    lemma_pow2_pos(da);
    lemma_pow2_pos(db);
    if ea == eb {
        assert(a.significand() < b.significand());
        assert(a.significand() * pow2(da) < b.significand() * pow2(da)) by (nonlinear_arith)
            requires
                a.significand() < b.significand(),
                pow2(da) > 0,
        ;
    } else {
        assert(span * pow2(db) <= b.significand() * pow2(db)) by (nonlinear_arith)
            requires
                span <= b.significand(),
        ;
        if ea == 0 {
            lemma2_to64();
            assert(a.units() == fa) by (nonlinear_arith)
                requires
                    a.units() == fa * pow2(0),
                    pow2(0) == 1,
            ;
            assert(span * 1 <= span * pow2(db)) by (nonlinear_arith)
                requires
                    pow2(db) >= 1,
            ;
        } else {
            // a.units() < 2 * span * pow2(da) == span * pow2(da + 1) <= span * pow2(db)
            assert(a.significand() * pow2(da) < (2 * span) * pow2(da)) by (nonlinear_arith)
                requires
                    a.significand() < 2 * span,
                    pow2(da) > 0,
            ;
            lemma_pow2_unfold(da + 1);
            assert((2 * span) * pow2(da) == span * pow2(da + 1)) by (nonlinear_arith)
                requires
                    pow2(da + 1) == 2 * pow2(da),
            ;
            if da + 1 < db {
                lemma_pow2_strictly_increases(da + 1, db);
            }
            assert(span * pow2(da + 1) <= span * pow2(db)) by (nonlinear_arith)
                requires
                    pow2(da + 1) <= pow2(db),
            ;
        }
    }
}

/// Only the two zeros count no units.
pub proof fn lemma_units_zero(a: Reading)
    ensures
        a.units() == 0 <==> a.magnitude_bits() == 0,
{
    let zero = Reading { bits: 0 };
    lemma2_to64();
    assert(zero.units() == 0) by (nonlinear_arith)
        requires
            zero.units() == 0 * pow2(0),
    ;
    if a.magnitude_bits() != 0 {
        lemma_units_order(zero, a);
    } else {
        assert(a.units() == 0) by (nonlinear_arith)
            requires
                a.units() == 0 * pow2(0),
        ;
    }
}

/// Comparing with a reading that is a whole number is comparing with
/// that number.
pub proof fn lemma_compare_whole(t: Reading, bound: Reading, k: nat)
    requires
        bound.is_whole(k),
    ensures
        t.lt_spec(bound) == t.below(k as int),
        t.ge_spec(bound) == t.at_least(k as int),
{
    if t.is_infinite_spec() {
        vstd::arithmetic::div_mod::lemma_fundamental_div_mod(
            t.magnitude_bits() as int,
            FRACTION_SPAN as int,
        );
        vstd::arithmetic::div_mod::lemma_fundamental_div_mod(
            bound.magnitude_bits() as int,
            FRACTION_SPAN as int,
        );
        assert(bound.magnitude_bits() < t.magnitude_bits()) by (nonlinear_arith)
            requires
                bound.magnitude_bits() == 0x10_0000_0000_0000 * bound.exponent_field()
                    + bound.fraction_field(),
                t.magnitude_bits() == 0x10_0000_0000_0000 * 2047,
                bound.exponent_field() <= 2046,
                bound.fraction_field() < 0x10_0000_0000_0000,
        ;
        lemma_units_order(bound, t);
    }
}

} // verus!
