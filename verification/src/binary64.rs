//! Double precision numbers as the settings file and the browser know them, held
//! as their IEEE 754 bit patterns and compared exactly.

use vstd::arithmetic::mul::*;
use vstd::arithmetic::power2::*;
use vstd::prelude::*;

verus! {

/// 0.0
pub const ZERO: u64 = 0;

/// 0.25
pub const QUARTER: u64 = 0x3fd0_0000_0000_0000;

/// 1.0
pub const ONE: u64 = 0x3ff0_0000_0000_0000;

/// 4.0
pub const FOUR: u64 = 0x4010_0000_0000_0000;

/// 0.001
pub const THOUSANDTH: u64 = 0x3f50_624d_d2f1_a9fc;

/// The distance from 1.0 to the next number above it.
pub const EPSILON: u64 = 0x3cb0_0000_0000_0000;

const SIGN: u64 = 0x8000_0000_0000_0000;

const HIDDEN: u64 = 0x10_0000_0000_0000;

/// A double precision number.
#[derive(Clone, Copy, Debug, PartialEq, Eq, Structural)]
pub struct Binary64 {
    pub bits: u64,
}

/// The number with a given bit pattern.
pub open spec fn number(bits: u64) -> Binary64 {
    Binary64 { bits }
}

/// Everything below the sign bit: exponent and fraction.
pub open spec fn rank(bits: u64) -> int {
    bits as int % 0x8000_0000_0000_0000
}

pub open spec fn exponent(bits: u64) -> int {
    rank(bits) / 0x10_0000_0000_0000
}

pub open spec fn fraction(bits: u64) -> int {
    bits as int % 0x10_0000_0000_0000
}

/// The size of a number, counted in units of two to the power of -1074, of which
/// every double is a whole multiple.
pub open spec fn magnitude(bits: u64) -> int {
    if exponent(bits) == 0 {
        fraction(bits)
    } else {
        (0x10_0000_0000_0000 + fraction(bits)) * pow2((exponent(bits) - 1) as nat)
    }
}

impl Binary64 {
    pub open spec fn is_negative(self) -> bool {
        self.bits >= 0x8000_0000_0000_0000
    }

    pub open spec fn is_nan(self) -> bool {
        exponent(self.bits) == 2047 && fraction(self.bits) != 0
    }

    /// Neither infinite nor NaN.
    pub open spec fn is_number(self) -> bool {
        exponent(self.bits) != 2047
    }

    /// The number itself, in units of two to the power of -1074. The infinities
    /// come out beyond every number, which is all that comparing needs.
    pub open spec fn scaled(self) -> int {
        if self.is_negative() {
            -magnitude(self.bits)
        } else {
            magnitude(self.bits)
        }
    }

    /// The order of the numbers. NaN is neither below nor above anything.
    pub open spec fn below(self, other: Binary64) -> bool {
        !self.is_nan() && !other.is_nan() && self.scaled() < other.scaled()
    }

    /// A number held between two others. NaN stays as it is.
    pub open spec fn clamped(self, low: Binary64, high: Binary64) -> Binary64 {
        if self.below(low) {
            low
        } else if high.below(self) {
            high
        } else {
            self
        }
    }

    /// Whether two numbers lie less than `tolerance` apart.
    pub open spec fn near(self, other: Binary64, tolerance: Binary64) -> bool {
        &&& self.is_number()
        &&& -tolerance.scaled() < self.scaled() - other.scaled() < tolerance.scaled()
    }

    /// Ordered like the number, and small enough to compute with.
    spec fn key(self) -> int {
        if self.is_negative() {
            -rank(self.bits)
        } else {
            rank(self.bits)
        }
    }
}

proof fn lemma_magnitude_grows(low: u64, high: u64)
    requires
        rank(low) < rank(high),
    ensures
        magnitude(low) < magnitude(high),
{
    let (e1, e2) = (exponent(low), exponent(high));
    let (f1, f2) = (fraction(low), fraction(high));
    let hidden = 0x10_0000_0000_0000int;
    assert(rank(low) == e1 * hidden + f1);
    assert(rank(high) == e2 * hidden + f2);
    if e1 == e2 {
        if e1 > 0 {
            let p = pow2((e1 - 1) as nat) as int;
            lemma_pow2_pos((e1 - 1) as nat);
            lemma_mul_strict_inequality(hidden + f1, hidden + f2, p);
        }
    } else {
        assert(e1 < e2);
        let p2 = pow2((e2 - 1) as nat) as int;
        lemma_pow2_pos((e2 - 1) as nat);
        lemma_mul_inequality(hidden, hidden + f2, p2);
        assert(magnitude(high) >= hidden * p2);
        if e1 == 0 {
            lemma_mul_inequality(1, p2, hidden);
            lemma_mul_is_commutative(p2, hidden);
        } else {
            let p1 = pow2((e1 - 1) as nat) as int;
            lemma_pow2_pos((e1 - 1) as nat);
            lemma_mul_strict_inequality(hidden + f1, 2 * hidden, p1);
            lemma_pow2_unfold(e1 as nat);
            assert(2 * hidden * p1 == hidden * (2 * p1)) by (nonlinear_arith);
            if e1 < e2 - 1 {
                lemma_pow2_strictly_increases(e1 as nat, (e2 - 1) as nat);
            }
            lemma_mul_inequality(2 * p1, p2, hidden);
            lemma_mul_is_commutative(2 * p1, hidden);
            lemma_mul_is_commutative(p2, hidden);
        }
    }
}

proof fn lemma_magnitude_of_rank(left: u64, right: u64)
    ensures
        rank(left) == rank(right) ==> magnitude(left) == magnitude(right),
        rank(left) == 0 ==> magnitude(left) == 0,
        rank(left) > 0 ==> magnitude(left) > 0,
        magnitude(left) >= 0,
{
    let hidden = 0x10_0000_0000_0000int;
    assert(fraction(left) == rank(left) % hidden);
    assert(fraction(right) == rank(right) % hidden);
    if rank(left) > 0 {
        lemma_magnitude_grows(ZERO, left);
        assert(magnitude(ZERO) == 0);
    }
}

/// The keys order numbers as the numbers themselves are ordered.
proof fn lemma_key_orders(left: Binary64, right: Binary64)
    ensures
        left.key() < right.key() <==> left.scaled() < right.scaled(),
{
    lemma_magnitude_of_rank(left.bits, right.bits);
    lemma_magnitude_of_rank(right.bits, left.bits);
    if rank(left.bits) < rank(right.bits) {
        lemma_magnitude_grows(left.bits, right.bits);
    }
    if rank(right.bits) < rank(left.bits) {
        lemma_magnitude_grows(right.bits, left.bits);
    }
}

impl Binary64 {
    fn order_key(self) -> (key: i64)
        ensures
            key == self.key(),
    {
        let rank: u64 = self.bits % SIGN;
        if self.bits >= SIGN {
            -(rank as i64)
        } else {
            rank as i64
        }
    }

    pub fn nan(self) -> (nan: bool)
        ensures
            nan == self.is_nan(),
    {
        (self.bits % SIGN) / HIDDEN == 2047 && self.bits % HIDDEN != 0
    }

    pub fn finite(self) -> (finite: bool)
        ensures
            finite == self.is_number(),
    {
        (self.bits % SIGN) / HIDDEN != 2047
    }

    pub fn less_than(self, other: Binary64) -> (less: bool)
        ensures
            less == self.below(other),
    {
        proof {
            lemma_key_orders(self, other);
        }
        !self.nan() && !other.nan() && self.order_key() < other.order_key()
    }

    /// Whether this number is `other` or above it.
    pub fn at_least(self, other: Binary64) -> (at_least: bool)
        ensures
            at_least == (!self.is_nan() && !other.is_nan() && self.scaled() >= other.scaled()),
    {
        proof {
            lemma_key_orders(self, other);
        }
        !self.nan() && !other.nan() && self.order_key() >= other.order_key()
    }

    pub fn clamp(self, low: Binary64, high: Binary64) -> (held: Binary64)
        requires
            !low.is_nan(),
            !high.is_nan(),
            low.scaled() <= high.scaled(),
        ensures
            held == self.clamped(low, high),
    {
        if self.less_than(low) {
            low
        } else if high.less_than(self) {
            high
        } else {
            self
        }
    }
}

/// The numbers from two to the power of -52 up to 2, counted in units of two to
/// the power of -104.
spec fn fixed(bits: u64) -> int {
    (0x10_0000_0000_0000 + fraction(bits)) * pow2((exponent(bits) - 971) as nat)
}

proof fn lemma_fixed(bits: u64)
    requires
        971 <= exponent(bits),
    ensures
        magnitude(bits) == fixed(bits) * pow2(970),
{
    let up = (exponent(bits) - 971) as nat;
    let significand = 0x10_0000_0000_0000 + fraction(bits);
    lemma_pow2_adds(up, 970);
    assert(up + 970 == exponent(bits) - 1);
    lemma_mul_is_associative(significand, pow2(up) as int, pow2(970) as int);
}

fn fixed_point(bits: u64) -> (value: u128)
    requires
        971 <= exponent(bits) <= 1024,
    ensures
        value == fixed(bits),
{
    let mut value: u128 = (HIDDEN + bits % HIDDEN) as u128;
    let steps: u64 = (bits % SIGN) / HIDDEN - 971;
    let ghost significand = value as int;
    let mut done: u64 = 0;
    proof {
        lemma2_to64();
    }
    while done < steps
        invariant
            done <= steps <= 53,
            steps == exponent(bits) - 971,
            significand == 0x10_0000_0000_0000 + fraction(bits),
            0 <= significand < 0x20_0000_0000_0000,
            value == significand * pow2(done as nat),
        decreases steps - done,
    {
        proof {
            let p = pow2(done as nat) as int;
            lemma2_to64_rest();
            lemma_pow2_strictly_increases(done as nat, 53);
            assert(0 <= significand * p <= 0x20_0000_0000_0000 * 0x20_0000_0000_0000)
                by (nonlinear_arith)
                requires
                    0 <= significand < 0x20_0000_0000_0000,
                    0 <= p <= 0x20_0000_0000_0000,
            ;
            lemma_pow2_unfold((done + 1) as nat);
            assert(significand * (2 * p) == 2 * (significand * p)) by (nonlinear_arith);
        }
        value = value * 2;
        done += 1;
    }
    value
}

proof fn lemma_far_apart(number: Binary64, step: Binary64, tolerance: Binary64)
    requires
        0x3fb0_0000_0000_0000 <= step.bits <= 0x3ff0_0000_0000_0000,
        0x3cb0_0000_0000_0000 <= tolerance.bits <= 0x3f60_0000_0000_0000,
        number.scaled() < magnitude(0x3fa0_0000_0000_0000) || number.scaled() > magnitude(
            0x4000_0000_0000_0000,
        ),
    ensures
        !number.near(step, tolerance),
{
    let least = Binary64 { bits: 0x3fb0_0000_0000_0000 };
    let most = Binary64 { bits: 0x3ff0_0000_0000_0000 };
    let widest = Binary64 { bits: 0x3f60_0000_0000_0000 };
    let half = Binary64 { bits: 0x3fa0_0000_0000_0000 };
    lemma_key_orders(step, least);
    lemma_key_orders(most, step);
    lemma_key_orders(widest, tolerance);
    lemma_key_orders(half, widest);
    lemma_key_orders(most, half);
    lemma_pow2_unfold(1018);
    lemma_pow2_unfold(1023);
    assert(pow2(1018) == 2 * pow2(1017));
    assert(pow2(1023) == 2 * pow2(1022));
    assert(magnitude(0x3fa0_0000_0000_0000) == 0x10_0000_0000_0000 * pow2(1017));
    assert(magnitude(0x3fb0_0000_0000_0000) == 0x10_0000_0000_0000 * pow2(1018));
    assert(magnitude(0x3ff0_0000_0000_0000) == 0x10_0000_0000_0000 * pow2(1022));
    assert(magnitude(0x4000_0000_0000_0000) == 0x10_0000_0000_0000 * pow2(1023));
    assert(least.scaled() == 2 * half.scaled());
    assert(magnitude(0x4000_0000_0000_0000) == 2 * most.scaled());
    assert(least.scaled() <= step.scaled() <= most.scaled());
    assert(tolerance.scaled() <= widest.scaled() <= half.scaled() <= most.scaled());
}

impl Binary64 {
    /// Whether this number lies less than `tolerance` away from `step`.
    ///
    /// Subtracting two doubles and comparing the difference gives the same
    /// answer: where the two are within a factor of two of each other their
    /// difference is exact, and further apart it is far above the tolerance.
    pub fn near_to(self, step: Binary64, tolerance: Binary64) -> (near: bool)
        requires
            step.bits == 0 || 0x3fb0_0000_0000_0000 <= step.bits <= 0x3ff0_0000_0000_0000,
            0x3cb0_0000_0000_0000 <= tolerance.bits <= 0x3f60_0000_0000_0000,
        ensures
            near == self.near(step, tolerance),
    {
        if !self.finite() {
            return false;
        }
        if step.bits == 0 {
            let size = Binary64 { bits: self.bits % SIGN };
            proof {
                lemma_magnitude_of_rank(self.bits, size.bits);
                lemma_magnitude_of_rank(size.bits, self.bits);
                assert(rank(size.bits) == rank(self.bits));
                assert(magnitude(ZERO) == 0);
            }
            return size.less_than(tolerance);
        }
        let half = Binary64 { bits: 0x3fa0_0000_0000_0000 };
        let double = Binary64 { bits: 0x4000_0000_0000_0000 };
        if self.less_than(half) || double.less_than(self) {
            proof {
                lemma_far_apart(self, step, tolerance);
            }
            return false;
        }
        proof {
            lemma_key_orders(self, half);
            lemma_key_orders(double, self);
            lemma_fixed(self.bits);
            lemma_fixed(step.bits);
            lemma_fixed(tolerance.bits);
            lemma_pow2_pos(970);
        }
        let here = fixed_point(self.bits);
        let there = fixed_point(step.bits);
        let reach = fixed_point(tolerance.bits);
        let apart = if here < there {
            there - here
        } else {
            here - there
        };
        proof {
            let unit = pow2(970) as int;
            let gap = self.scaled() - step.scaled();
            lemma_mul_is_distributive_sub_other_way(unit, here as int, there as int);
            lemma_mul_is_distributive_sub_other_way(unit, there as int, here as int);
            if apart < reach {
                lemma_mul_strict_inequality(apart as int, reach as int, unit);
            } else {
                lemma_mul_inequality(reach as int, apart as int, unit);
            }
        }
        apart < reach
    }
}

/// Of two positive numbers the one with the larger bit pattern is the larger one.
pub proof fn order_of_positive_bits(left: u64, right: u64)
    requires
        left < right,
        exponent(right) != 2047,
        right < 0x8000_0000_0000_0000,
    ensures
        number(left).below(number(right)),
{
    lemma_magnitude_grows(left, right);
}

/// A number between two positive ones has a bit pattern between theirs.
pub proof fn bits_between(value: Binary64, low: u64, high: u64)
    requires
        0 < low <= high < 0x8000_0000_0000_0000,
        !value.is_nan(),
        !value.below(number(low)),
        !number(high).below(value),
        !number(low).is_nan(),
        !number(high).is_nan(),
    ensures
        low <= value.bits <= high,
{
    lemma_key_orders(value, number(low));
    lemma_key_orders(number(high), value);
}


/// Of two negative numbers the one with the larger bit pattern is the smaller one.
pub proof fn order_of_negative_bits(left: u64, right: u64)
    requires
        0x8000_0000_0000_0000 <= right < left,
        exponent(left) != 2047,
    ensures
        number(left).below(number(right)),
{
    lemma_magnitude_grows(right, left);
}

/// Every negative number lies below every positive one, the zeros are one number, and
/// what is not a number lies neither below nor above anything.
pub proof fn order_across_zero(left: u64, right: u64, other: Binary64)
    requires
        0x8000_0000_0000_0000 < left,
        exponent(left) != 2047,
        0 < right < 0x8000_0000_0000_0000,
        exponent(right) != 2047,
    ensures
        number(left).below(number(right)),
        number(left).below(number(0)),
        number(0).below(number(right)),
        !number(0x8000_0000_0000_0000).below(number(0)),
        !number(0).below(number(0x8000_0000_0000_0000)),
        !other.below(other),
        other.is_nan() ==> !other.below(number(left)) && !number(left).below(other),
{
    lemma_key_orders(number(left), number(right));
    lemma_key_orders(number(left), number(0));
    lemma_key_orders(number(0), number(right));
    lemma_key_orders(number(0x8000_0000_0000_0000), number(0));
    lemma_key_orders(number(0), number(0x8000_0000_0000_0000));
}

/// A number is near itself, near another exactly if the other is near it, and not
/// near one that is the whole tolerance or more away.
pub proof fn nearness_is_a_distance(left: Binary64, right: Binary64, tolerance: Binary64)
    requires
        left.is_number(),
        right.is_number(),
    ensures
        tolerance.scaled() > 0 ==> left.near(left, tolerance),
        left.near(right, tolerance) == right.near(left, tolerance),
        left.scaled() - right.scaled() >= tolerance.scaled() ==> !left.near(right, tolerance),
        0 <= left.scaled() - right.scaled() < tolerance.scaled() ==> left.near(right, tolerance),
{
}


/// One more in the exponent doubles a number, and one more in the fraction adds the
/// same step everywhere between two powers of two.
pub proof fn exponents_double(bits: u64)
    requires
        1 <= exponent(bits) < 2046,
        bits < 0x8000_0000_0000_0000,
    ensures
        number((bits + 0x10_0000_0000_0000) as u64).scaled() == 2 * number(bits).scaled(),
        fraction(bits) < 0xf_ffff_ffff_ffff ==> number((bits + 1) as u64).scaled() == number(
            bits,
        ).scaled() + pow2((exponent(bits) - 1) as nat),
{
    let up = (bits + 0x10_0000_0000_0000) as u64;
    assert(exponent(up) == exponent(bits) + 1);
    assert(fraction(up) == fraction(bits));
    let whole = 0x10_0000_0000_0000 + fraction(bits);
    let power = pow2((exponent(bits) - 1) as nat) as int;
    lemma_pow2_unfold(exponent(bits) as nat);
    assert(pow2(exponent(bits) as nat) == 2 * power);
    assert(whole * (2 * power) == 2 * (whole * power)) by (nonlinear_arith);
    if fraction(bits) < 0xf_ffff_ffff_ffff {
        let next = (bits + 1) as u64;
        assert(exponent(next) == exponent(bits));
        assert(fraction(next) == fraction(bits) + 1);
        assert((whole + 1) * power == whole * power + power) by (nonlinear_arith);
    }
}


/// The largest exponent is no number's: with a fraction it is what is not a number at
/// all, and without one it is infinite, which lies beyond every number.
pub proof fn infinities_lie_beyond(bits: u64)
    ensures
        number(bits).is_number() <==> bits % 0x8000_0000_0000_0000 < 0x7ff0_0000_0000_0000,
        number(bits).is_nan() <==> bits % 0x8000_0000_0000_0000 > 0x7ff0_0000_0000_0000,
        number(bits).is_number() ==> number(bits).below(number(0x7ff0_0000_0000_0000)) && number(
            0xfff0_0000_0000_0000,
        ).below(number(bits)),
{
    lemma_key_orders(number(bits), number(0x7ff0_0000_0000_0000));
    lemma_key_orders(number(0xfff0_0000_0000_0000), number(bits));
}

/// What is no number is near nothing.
pub proof fn only_numbers_are_near(value: Binary64, other: Binary64, tolerance: Binary64)
    requires
        !value.is_number(),
    ensures
        !value.near(other, tolerance),
{
}

} // verus!
