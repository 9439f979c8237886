//! Binary64 values held by their bit patterns, with verified comparisons.

use vstd::prelude::*;
use vstd::arithmetic::power2::{
    pow2, lemma2_to64, lemma2_to64_rest, lemma_pow2_adds, lemma_pow2_pos,
    lemma_pow2_strictly_increases, lemma_pow2_unfold,
};
use vstd::arithmetic::mul::{lemma_mul_inequality, lemma_mul_strict_inequality};
use vstd::arithmetic::div_mod::{
    lemma_basic_div, lemma_div_by_multiple, lemma_div_is_ordered,
    lemma_div_multiples_vanish_quotient,
};

verus! {

/// The weight of the lowest exponent bit in a binary64 bit pattern: the
/// 52 bits below it hold the fraction.
pub const FRACTION_RANGE: u64 = 0x0010_0000_0000_0000;

/// The weight of the sign bit in a binary64 bit pattern.
pub const SIGN_BIT: u64 = 0x8000_0000_0000_0000;

/// The magnitude bits of positive infinity: all exponent bits set, no
/// fraction bit set.
pub const INFINITY_BITS: u64 = 0x7ff0_0000_0000_0000;

/// The bit pattern of negative infinity.
pub const NEG_INFINITY_BITS: u64 = 0xfff0_0000_0000_0000;

/// The bit pattern of the value one.
pub const ONE_BITS: u64 = 0x3ff0_0000_0000_0000;

/// The bit pattern of the tolerance 0.00001, below which a value counts as
/// zero.
pub const EPSILON_BITS: u64 = 0x3ee4_f8b5_88e3_68f1;

/// A binary64 value, carried by its bit pattern.
///
/// The pattern is kept exactly as it was handed in, so converting a value to
/// a `Scalar` and back loses nothing. Comparisons follow the binary64 rules:
/// a pattern that is not a number compares false with everything, and the two
/// zeros are equal.
///
/// For patterns that are numbers, the numeric order coincides with the order
/// of [`Scalar::rank`]: the magnitude bits read as an integer, negated when
/// the sign bit is set. [`lemma_rank_orders_as_value`] shows this of the
/// finite patterns, whose values [`Scalar::value`] spells out.
///
/// The derived `==` compares the patterns themselves and so tells the two
/// zeros apart; [`Scalar::equals`] compares the values.
#[derive(Clone, Copy, Debug, PartialEq, Eq, Structural)]
pub struct Scalar {
    pub bits: u64,
}

impl Scalar {
    /// The pattern without its sign bit.
    pub open spec fn magnitude(self) -> int {
        if self.bits >= SIGN_BIT {
            self.bits - SIGN_BIT
        } else {
            self.bits as int
        }
    }

    /// Whether the sign bit is set (this holds of negative zero too).
    pub open spec fn sign_negative(self) -> bool {
        self.bits >= SIGN_BIT
    }

    /// Whether the pattern is not a number.
    pub open spec fn is_nan(self) -> bool {
        self.magnitude() > INFINITY_BITS
    }

    /// The position of the value on the number line, as an integer: two
    /// numbers compare as their ranks do. Both zeros have rank 0.
    pub open spec fn rank(self) -> int {
        if self.sign_negative() {
            -self.magnitude()
        } else {
            self.magnitude()
        }
    }

    /// `self < other` under the binary64 rules.
    pub open spec fn lt(self, other: Scalar) -> bool {
        !self.is_nan() && !other.is_nan() && self.rank() < other.rank()
    }

    /// `self <= other` under the binary64 rules.
    pub open spec fn le(self, other: Scalar) -> bool {
        !self.is_nan() && !other.is_nan() && self.rank() <= other.rank()
    }

    /// `self == other` under the binary64 rules.
    pub open spec fn same(self, other: Scalar) -> bool {
        !self.is_nan() && !other.is_nan() && self.rank() == other.rank()
    }

    /// Whether the value is a number that is not below zero.
    pub open spec fn non_negative(self) -> bool {
        !self.is_nan() && self.rank() >= 0
    }

    /// The key by which lists of scalars are sorted: the rank, with every
    /// pattern that is not a number placed after all numbers.
    pub open spec fn sort_key(self) -> int {
        if self.is_nan() {
            SIGN_BIT as int
        } else {
            self.rank()
        }
    }

    /// Whether the pattern is a number other than the two infinities.
    pub open spec fn is_finite(self) -> bool {
        self.magnitude() < INFINITY_BITS
    }

    /// The value of a finite pattern without its sign, counted in units of
    /// the smallest positive binary64, two to the power of minus 1074:
    /// every finite binary64 is a whole number of these.
    ///
    /// The magnitude bits are an exponent field above a fraction of 52
    /// bits. With an exponent field of zero the value is the fraction
    /// itself; with an exponent field `e` above zero it is the fraction and
    /// an implied leading one, doubled `e - 1` times.
    pub open spec fn units(self) -> int {
        let exponent = self.magnitude() / (FRACTION_RANGE as int);
        let fraction = self.magnitude() % (FRACTION_RANGE as int);
        if exponent == 0 {
            fraction
        } else {
            (FRACTION_RANGE + fraction) * pow2((exponent - 1) as nat)
        }
    }

    /// The value of a finite pattern, counted in units of the smallest
    /// positive binary64.
    pub open spec fn value(self) -> int {
        if self.sign_negative() {
            -self.units()
        } else {
            self.units()
        }
    }

    /// The whole part of the value, held to the range of eight bits: a
    /// value below zero and a pattern that is not a number give 0, a value
    /// above 255 gives 255, and every other value gives what is left of it
    /// when the part behind the point is dropped.
    pub open spec fn whole_u8(self) -> int {
        if self.is_nan() || self.sign_negative() {
            0
        } else if !self.is_finite() {
            255
        } else {
            let whole = self.units() / (pow2(1074) as int);
            if whole > 255 {
                255
            } else {
                whole
            }
        }
    }

    /// The value with its sign turned: the same pattern with the sign bit
    /// flipped.
    pub open spec fn spec_negated(self) -> Scalar {
        if self.bits >= SIGN_BIT {
            Scalar { bits: (self.bits - SIGN_BIT) as u64 }
        } else {
            Scalar { bits: (self.bits + SIGN_BIT) as u64 }
        }
    }

    /// The value without its sign.
    pub open spec fn spec_abs(self) -> Scalar {
        Scalar { bits: self.magnitude() as u64 }
    }

    /// Whether the value is a number closer to zero than the tolerance.
    pub open spec fn near_zero(self) -> bool {
        self.spec_abs().lt(Scalar { bits: EPSILON_BITS })
    }

    /// The larger of two values. Where one of them is not a number the
    /// result is the other one; of two equal values it is the first.
    pub open spec fn spec_max(self, other: Scalar) -> Scalar {
        if self.is_nan() {
            other
        } else if other.is_nan() {
            self
        } else if self.lt(other) {
            other
        } else {
            self
        }
    }

    /// The smaller of two values. Where one of them is not a number the
    /// result is the other one; of two equal values it is the first.
    pub open spec fn spec_min(self, other: Scalar) -> Scalar {
        if self.is_nan() {
            other
        } else if other.is_nan() {
            self
        } else if other.lt(self) {
            other
        } else {
            self
        }
    }

    /// Wraps a bit pattern.
    pub fn from_bits(bits: u64) -> (r: Scalar)
        ensures
            r.bits == bits,
    {
        Scalar { bits }
    }

    /// The bit pattern, unchanged.
    pub fn to_bits(&self) -> (r: u64)
        ensures
            r == self.bits,
    {
        self.bits
    }

    /// Positive zero.
    pub fn zero() -> (r: Scalar)
        ensures
            r.bits == 0,
            r.rank() == 0,
            !r.is_nan(),
    {
        Scalar { bits: 0 }
    }

    /// The value one.
    pub fn one() -> (r: Scalar)
        ensures
            r.bits == ONE_BITS,
            r.rank() == ONE_BITS,
            !r.is_nan(),
    {
        Scalar { bits: ONE_BITS }
    }

    /// The tolerance 0.00001.
    pub fn epsilon() -> (r: Scalar)
        ensures
            r.bits == EPSILON_BITS,
            !r.is_nan(),
    {
        Scalar { bits: EPSILON_BITS }
    }

    /// The value with its sign turned.
    pub fn negated(&self) -> (r: Scalar)
        ensures
            r == self.spec_negated(),
            r.magnitude() == self.magnitude(),
            r.sign_negative() != self.sign_negative(),
            !self.is_nan() ==> r.rank() == -self.rank(),
    {
        if self.bits >= SIGN_BIT {
            Scalar { bits: self.bits - SIGN_BIT }
        } else {
            Scalar { bits: self.bits + SIGN_BIT }
        }
    }

    /// The value without its sign.
    pub fn abs(&self) -> (r: Scalar)
        ensures
            r == self.spec_abs(),
    {
        if self.bits >= SIGN_BIT {
            Scalar { bits: self.bits - SIGN_BIT }
        } else {
            Scalar { bits: self.bits }
        }
    }

    /// Tells whether the value is closer to zero than the tolerance.
    pub fn is_near_zero(&self) -> (r: bool)
        ensures
            r == self.near_zero(),
    {
        self.abs().less_than(&Scalar::epsilon())
    }

    /// The larger of two values: see [`Scalar::spec_max`].
    pub fn max(&self, other: &Scalar) -> (r: Scalar)
        ensures
            r == self.spec_max(*other),
    {
        if self.not_a_number() {
            *other
        } else if other.not_a_number() {
            *self
        } else if self.less_than(other) {
            *other
        } else {
            *self
        }
    }

    /// The smaller of two values: see [`Scalar::spec_min`].
    pub fn min(&self, other: &Scalar) -> (r: Scalar)
        ensures
            r == self.spec_min(*other),
    {
        if self.not_a_number() {
            *other
        } else if other.not_a_number() {
            *self
        } else if other.less_than(self) {
            *other
        } else {
            *self
        }
    }

    /// The whole part of the value in eight bits: see
    /// [`Scalar::whole_u8`].
    pub fn to_u8(&self) -> (r: u8)
        ensures
            r == self.whole_u8(),
    {
        if self.not_a_number() || self.bits >= SIGN_BIT {
            return 0;
        }
        if self.bits == INFINITY_BITS {
            return 255;
        }
        let exponent: u64 = self.bits / FRACTION_RANGE;
        let fraction: u64 = self.bits % FRACTION_RANGE;
        proof {
            lemma_whole_part(*self);
        }
        if exponent < 1023 {
            return 0;
        }
        if exponent >= 1031 {
            return 255;
        }
        let divisor: u64 = if exponent == 1023 {
            0x10_0000_0000_0000
        } else if exponent == 1024 {
            0x8_0000_0000_0000
        } else if exponent == 1025 {
            0x4_0000_0000_0000
        } else if exponent == 1026 {
            0x2_0000_0000_0000
        } else if exponent == 1027 {
            0x1_0000_0000_0000
        } else if exponent == 1028 {
            0x8000_0000_0000
        } else if exponent == 1029 {
            0x4000_0000_0000
        } else {
            0x2000_0000_0000
        };
        proof {
            lemma2_to64_rest();
        }
        assert(divisor == pow2((1075 - exponent) as nat));
        let whole: u64 = (FRACTION_RANGE + fraction) / divisor;
        whole as u8
    }

    /// Tells whether the pattern is not a number.
    pub fn not_a_number(&self) -> (r: bool)
        ensures
            r == self.is_nan(),
    {
        let magnitude: u64 = if self.bits >= SIGN_BIT {
            self.bits - SIGN_BIT
        } else {
            self.bits
        };
        magnitude > INFINITY_BITS
    }

    /// Computes [`Scalar::sort_key`].
    pub fn key(&self) -> (r: i128)
        ensures
            r == self.sort_key(),
    {
        if self.not_a_number() {
            SIGN_BIT as i128
        } else if self.bits >= SIGN_BIT {
            -((self.bits - SIGN_BIT) as i128)
        } else {
            self.bits as i128
        }
    }

    /// `self < other`: false when either is not a number.
    pub fn less_than(&self, other: &Scalar) -> (r: bool)
        ensures
            r == self.lt(*other),
    {
        !self.not_a_number() && !other.not_a_number() && self.key() < other.key()
    }

    /// `self <= other`: false when either is not a number.
    pub fn at_most(&self, other: &Scalar) -> (r: bool)
        ensures
            r == self.le(*other),
    {
        !self.not_a_number() && !other.not_a_number() && self.key() <= other.key()
    }

    /// `self > other`: false when either is not a number.
    pub fn greater_than(&self, other: &Scalar) -> (r: bool)
        ensures
            r == other.lt(*self),
    {
        other.less_than(self)
    }

    /// `self == other` as values: the two zeros are equal, and a pattern that
    /// is not a number equals nothing, itself included.
    pub fn equals(&self, other: &Scalar) -> (r: bool)
        ensures
            r == self.same(*other),
    {
        !self.not_a_number() && !other.not_a_number() && self.key() == other.key()
    }

    /// `self >= 0`: true of both zeros, false of a pattern that is not a
    /// number.
    pub fn is_non_negative(&self) -> (r: bool)
        ensures
            r == self.non_negative(),
    {
        !self.not_a_number() && self.key() >= 0
    }

    /// `self == 0`: true of both zeros.
    pub fn is_zero(&self) -> (r: bool)
        ensures
            r == (self.bits == 0 || self.bits == SIGN_BIT),
            r == self.same(Scalar { bits: 0 }),
    {
        self.bits == 0 || self.bits == SIGN_BIT
    }

    /// `self > 0`: false of both zeros and of a pattern that is not a number.
    pub fn is_positive(&self) -> (r: bool)
        ensures
            r == (Scalar { bits: 0 }).lt(*self),
    {
        !self.not_a_number() && self.key() > 0
    }
}

/// The whole part of a finite value that is not negative, by the size of
/// its exponent field: below 1023 the value is below one, from 1031 on it
/// is 256 or more, and in between its whole part is what is left of the
/// fraction with its leading one when the bits behind the point are cut
/// off.
proof fn lemma_whole_part(x: Scalar)
    requires
        !x.sign_negative(),
        x.is_finite(),
    ensures
        x.bits / FRACTION_RANGE < 1023 ==> x.units() / (pow2(1074) as int) == 0,
        x.bits / FRACTION_RANGE >= 1031 ==> x.units() / (pow2(1074) as int) >= 256,
        1023 <= x.bits / FRACTION_RANGE < 1031 ==> x.units() / (pow2(1074) as int) == (
        FRACTION_RANGE + x.bits % FRACTION_RANGE) / (pow2((1075 - x.bits / FRACTION_RANGE) as nat)
            as int) && 1 <= x.units() / (pow2(1074) as int) <= 255,
{
    let range = FRACTION_RANGE as int;
    let e = x.magnitude() / range;
    let f = x.magnitude() % range;
    let unit = pow2(1074) as int;
    lemma2_to64();
    lemma2_to64_rest();
    lemma_pow2_pos(1074);
    assert(x.magnitude() == x.bits);
    assert(0 <= f < range);
    assert(0 <= e < 2047);
    if e == 0 {
        lemma_pow2_strictly_increases(52, 1074);
        lemma_basic_div(f, unit);
    } else {
        let lift = pow2((e - 1) as nat) as int;
        lemma_pow2_pos((e - 1) as nat);
        if e < 1023 {
            // below two to the power of e + 52, which is at most a unit
            lemma_mul_strict_inequality(range + f, 2 * range, lift);
            lemma_pow2_adds(53, (e - 1) as nat);
            assert(pow2(53) == 2 * range);
            assert(x.units() < pow2((e + 52) as nat));
            if e + 52 < 1074 {
                lemma_pow2_strictly_increases((e + 52) as nat, 1074);
            }
            lemma_basic_div(x.units(), unit);
        } else if e >= 1031 {
            // at least two to the power of 1082, which is 256 units
            lemma_mul_inequality(range, range + f, lift);
            if e > 1031 {
                lemma_pow2_strictly_increases(1030, (e - 1) as nat);
            }
            lemma_mul_inequality(pow2(1030) as int, lift, range);
            assert(range * lift == lift * range) by (nonlinear_arith);
            assert(range * pow2(1030) == pow2(1030) * range) by (nonlinear_arith);
            lemma_pow2_adds(8, 1074);
            lemma_pow2_adds(52, 1030);
            assert(pow2(1082) == 256 * unit);
            assert(256 * unit <= x.units());
            lemma_div_is_ordered(256 * unit, x.units(), unit);
            lemma_div_by_multiple(256, unit);
        } else {
            let k = (1075 - e) as nat;
            let cut = pow2(k) as int;
            lemma_pow2_pos(k);
            lemma_pow2_adds((e - 1) as nat, k);
            assert(unit == lift * cut);
            lemma_div_multiples_vanish_quotient(lift, range + f, cut);
            assert((range + f) * lift == lift * (range + f)) by (nonlinear_arith);
            assert(x.units() / unit == (range + f) / cut);
            // the fraction with its leading one lies between two to the
            // power of 52 and two to the power of 53
            lemma_pow2_strictly_increases(44, k);
            assert(cut <= range) by {
                if k < 52 {
                    lemma_pow2_strictly_increases(k, 52);
                }
            }
            lemma_div_is_ordered(cut, range + f, cut);
            lemma_div_by_multiple(1, cut);
            assert(1 <= (range + f) / cut);
            assert(cut >= 0x2000_0000_0000) by {
                if k > 45 {
                    lemma_pow2_strictly_increases(45, k);
                }
            }
            assert((range + f) / cut <= 255) by (nonlinear_arith)
                requires
                    range + f < 2 * range,
                    range == 0x10_0000_0000_0000,
                    cut >= 0x2000_0000_0000,
            ;
        }
    }
}

/// Among patterns without a sign, the larger pattern is the larger value.
proof fn lemma_units_increase(a: Scalar, b: Scalar)
    requires
        a.magnitude() < b.magnitude(),
    ensures
        a.units() < b.units(),
{
    let range = FRACTION_RANGE as int;
    let ea = a.magnitude() / range;
    let fa = a.magnitude() % range;
    let eb = b.magnitude() / range;
    let fb = b.magnitude() % range;
    assert(a.magnitude() == ea * range + fa && 0 <= fa < range);
    assert(b.magnitude() == eb * range + fb && 0 <= fb < range);
    assert(ea <= eb) by (nonlinear_arith)
        requires
            ea * range + fa < eb * range + fb,
            0 <= fa < range,
            0 <= fb < range,
    ;
    assert(0 <= ea && 0 <= eb) by (nonlinear_arith)
        requires
            a.magnitude() >= 0,
            b.magnitude() >= 0,
            a.magnitude() == ea * range + fa,
            b.magnitude() == eb * range + fb,
            0 <= fa < range,
            0 <= fb < range,
            range > 0,
    ;
    if ea == eb {
        assert(fa < fb);
        if ea > 0 {
            lemma_pow2_pos((ea - 1) as nat);
            lemma_mul_strict_inequality(range + fa, range + fb, pow2((ea - 1) as nat) as int);
        }
    } else {
        // the exponent of b is above that of a, so b is at least the
        // smallest value of its exponent, which a does not reach
        let pb = pow2((eb - 1) as nat) as int;
        lemma_pow2_pos((eb - 1) as nat);
        lemma_mul_inequality(range, range + fb, pb);
        assert(range * pb <= b.units());
        if ea == 0 {
            lemma_mul_inequality(1, pb, range);
            assert(1 * range <= pb * range);
            assert(pb * range == range * pb) by (nonlinear_arith);
        } else {
            let pa = pow2((ea - 1) as nat) as int;
            lemma_pow2_pos((ea - 1) as nat);
            lemma_mul_strict_inequality(range + fa, 2 * range, pa);
            lemma_pow2_unfold(ea as nat);
            assert((2 * range) * pa == range * (2 * pa)) by (nonlinear_arith);
            assert(pow2(ea as nat) == 2 * pa);
            if ea < eb - 1 {
                lemma_pow2_strictly_increases(ea as nat, (eb - 1) as nat);
            }
            assert(pow2(ea as nat) <= pb);
            lemma_mul_inequality(pow2(ea as nat) as int, pb, range);
            assert(pow2(ea as nat) * range == range * (2 * pa)) by (nonlinear_arith)
                requires
                    pow2(ea as nat) == 2 * pa,
            ;
            assert(pb * range == range * pb) by (nonlinear_arith);
        }
    }
}

/// Ranks order finite patterns as their values do: the one of lower rank
/// is the smaller number, and those of equal rank are the same number. The
/// infinities lie beyond: no finite rank reaches theirs.
pub proof fn lemma_rank_orders_as_value(a: Scalar, b: Scalar)
    requires
        a.is_finite(),
        b.is_finite(),
    ensures
        a.rank() < b.rank() <==> a.value() < b.value(),
        a.rank() == b.rank() <==> a.value() == b.value(),
        -(INFINITY_BITS as int) < a.rank() < INFINITY_BITS,
{
    let zero = Scalar { bits: 0 };
    assert(zero.units() == 0);
    if a.magnitude() > 0 {
        lemma_units_increase(zero, a);
    }
    if b.magnitude() > 0 {
        lemma_units_increase(zero, b);
    }
    if a.magnitude() < b.magnitude() {
        lemma_units_increase(a, b);
    } else if b.magnitude() < a.magnitude() {
        lemma_units_increase(b, a);
    } else {
        assert(a.units() == b.units());
    }
}

/// Comparison by rank is a strict total order on the patterns that are
/// numbers, once the two zeros are taken as one value: of two numbers exactly
/// one of less, same and greater holds, and less is transitive.
pub proof fn lemma_scalar_order(a: Scalar, b: Scalar, c: Scalar)
    requires
        !a.is_nan(),
        !b.is_nan(),
        !c.is_nan(),
    ensures
        a.lt(b) || a.same(b) || b.lt(a),
        !(a.lt(b) && b.lt(a)),
        !(a.lt(b) && a.same(b)),
        a.lt(b) && b.lt(c) ==> a.lt(c),
        a.le(b) <==> a.lt(b) || a.same(b),
{
}

} // verus!
