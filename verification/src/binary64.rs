//! IEEE 754 binary64 numbers, held and compared by their encodings.

use vstd::arithmetic::power2::{
    lemma2_to64, lemma2_to64_rest, lemma_pow2_adds, lemma_pow2_strictly_increases,
    lemma_pow2_unfold, pow2,
};
use vstd::prelude::*;

verus! {

/// The encoding whose only set bit is the sign; it encodes negative zero.
pub const SIGN_BIT: u64 = 0x8000_0000_0000_0000;

/// The encoding of positive infinity. Every larger magnitude encodes a NaN.
pub const INFINITY: u64 = 0x7FF0_0000_0000_0000;

/// The encoding of 1.
pub const ONE: u64 = 0x3FF0_0000_0000_0000;

/// Two to the power 52: the weight of the lowest exponent bit in an encoding,
/// and of the leading bit that a normal number's significand gains.
pub const HIDDEN_BIT: u64 = 0x10_0000_0000_0000;

/// A binary64 number: one sign bit, eleven exponent bits, fifty-two fraction
/// bits. Every `u64` encodes one, so the type carries no invariant.
#[derive(Clone, Copy, Debug)]
pub struct Double {
    pub bits: u64,
}

impl Double {
    /// Whether the sign bit is set.
    pub open spec fn negative(self) -> bool {
        self.bits >= SIGN_BIT
    }

    /// The encoding with the sign bit cleared.
    pub open spec fn magnitude(self) -> int {
        if self.negative() {
            self.bits - SIGN_BIT
        } else {
            self.bits as int
        }
    }

    /// Not a number: the exponent is all ones and the fraction is not zero.
    pub open spec fn nan(self) -> bool {
        self.magnitude() > INFINITY
    }

    /// Neither a NaN nor an infinity.
    pub open spec fn finite(self) -> bool {
        self.magnitude() < INFINITY
    }

    /// Positive or negative zero.
    pub open spec fn zero(self) -> bool {
        self.magnitude() == 0
    }

    /// The number with the opposite sign.
    pub open spec fn negated(self) -> Double {
        if self.negative() {
            Double { bits: (self.bits - SIGN_BIT) as u64 }
        } else {
            Double { bits: (self.bits + SIGN_BIT) as u64 }
        }
    }

}

/// What an encoding means. A finite number is its significand times a power
/// of two; the smallest such power is two to the power -1074, so every finite
/// number is a whole multiple of it. `scaled` is that multiple, an integer.
/// Comparisons are comparisons of these integers.
impl Double {
    /// The eleven exponent bits.
    pub open spec fn exponent_field(self) -> int {
        self.magnitude() / (HIDDEN_BIT as int)
    }

    /// The fifty-two fraction bits.
    pub open spec fn fraction(self) -> int {
        self.magnitude() % (HIDDEN_BIT as int)
    }

    /// The fraction, with the leading bit in front unless the number is
    /// subnormal.
    pub open spec fn significand(self) -> int {
        if self.exponent_field() == 0 {
            self.fraction()
        } else {
            HIDDEN_BIT + self.fraction()
        }
    }

    /// How many times the significand is doubled.
    pub open spec fn doublings(self) -> nat {
        if self.exponent_field() <= 1 {
            0
        } else {
            (self.exponent_field() - 1) as nat
        }
    }

    /// The absolute value of a finite number, in units of two to the power
    /// -1074. An infinity gets what the formula gives it, two to the power
    /// 1024 in value, which lies beyond every finite number.
    pub open spec fn scaled_magnitude(self) -> int {
        self.significand() * pow2(self.doublings())
    }

    /// The value of a finite number, in units of two to the power -1074,
    /// and a stand-in beyond all of them for an infinity.
    pub open spec fn scaled(self) -> int {
        if self.negative() {
            -self.scaled_magnitude()
        } else {
            self.scaled_magnitude()
        }
    }

    /// The comparison `self <= other` of IEEE 754: of the values, and false
    /// as soon as either side is a NaN.
    pub open spec fn at_most(self, other: Double) -> bool {
        !self.nan() && !other.nan() && self.scaled() <= other.scaled()
    }

    /// The comparison `self == other` of IEEE 754: of the values, so true
    /// for the two zeros, and false for a NaN.
    pub open spec fn same(self, other: Double) -> bool {
        !self.nan() && !other.nan() && self.scaled() == other.scaled()
    }

    /// The comparison `self < other` of IEEE 754: of the values, and false
    /// as soon as either side is a NaN.
    pub open spec fn below(self, other: Double) -> bool {
        !self.nan() && !other.nan() && self.scaled() < other.scaled()
    }

    /// Membership in the closed interval from `low` to `high`.
    pub open spec fn within(self, low: Double, high: Double) -> bool {
        low.at_most(self) && self.at_most(high)
    }

    /// The encoding read as an integer with a sign: the magnitude, negated
    /// where the sign bit is set. Both zeros have rank 0.
    pub open spec fn rank(self) -> int {
        if self.negative() {
            -self.magnitude()
        } else {
            self.magnitude()
        }
    }
}

/// The scaled magnitude lies below the first value of the next exponent.
proof fn lemma_scaled_magnitude_below(d: Double)
    ensures
        0 <= d.scaled_magnitude() < HIDDEN_BIT * pow2(d.exponent_field() as nat),
        d.exponent_field() >= 1 ==> d.scaled_magnitude() >= HIDDEN_BIT * pow2(d.doublings()),
{
    let e = d.exponent_field();
    let f = d.fraction();
    let k = d.doublings();
    let p = pow2(k) as int;
    assert(0 <= e);
    assert(0 <= f < HIDDEN_BIT);
    vstd::arithmetic::power2::lemma_pow2_pos(k);
    if e == 0 {
        assert(pow2(0) == 1) by {
            vstd::arithmetic::power2::lemma2_to64();
        }
        assert(f * 1 == f);
        assert(HIDDEN_BIT * 1 == HIDDEN_BIT);
    } else {
        lemma_pow2_unfold(e as nat);
        let s = d.significand();
        assert(HIDDEN_BIT <= s < 2 * HIDDEN_BIT);
        assert(pow2(e as nat) == 2 * p);
        assert(HIDDEN_BIT * p <= s * p < HIDDEN_BIT * (2 * p)) by (nonlinear_arith)
            requires
                HIDDEN_BIT <= s < 2 * HIDDEN_BIT,
                p > 0,
        ;
    }
}

/// A larger encoding of a magnitude encodes a larger magnitude.
pub proof fn lemma_scaled_magnitude_increases(a: Double, b: Double)
    requires
        a.magnitude() < b.magnitude(),
    ensures
        a.scaled_magnitude() < b.scaled_magnitude(),
{
    let ea = a.exponent_field();
    let eb = b.exponent_field();
    assert(0 <= ea <= eb);
    if ea == eb {
        let p = pow2(a.doublings()) as int;
        let sa = a.significand();
        let sb = b.significand();
        vstd::arithmetic::power2::lemma_pow2_pos(a.doublings());
        assert(sa < sb);
        assert(sa * p < sb * p) by (nonlinear_arith)
            requires
                sa < sb,
                p > 0,
        ;
    } else {
        lemma_scaled_magnitude_below(a);
        lemma_scaled_magnitude_below(b);
        let pa = pow2(ea as nat) as int;
        let pb = pow2(b.doublings()) as int;
        if ea < b.doublings() {
            lemma_pow2_strictly_increases(ea as nat, b.doublings());
        }
        assert(pa <= pb);
        assert(HIDDEN_BIT * pa <= HIDDEN_BIT * pb) by (nonlinear_arith)
            requires
                pa <= pb,
        ;
    }
}

/// Encodings grow with the numbers they encode: ranks order the numbers as
/// their values do, and two numbers have one rank exactly when they have one
/// value. The zeros are the numbers of value zero.
pub proof fn lemma_rank_orders_values(a: Double, b: Double)
    ensures
        a.rank() <= b.rank() <==> a.scaled() <= b.scaled(),
        a.rank() < b.rank() <==> a.scaled() < b.scaled(),
        a.rank() == b.rank() <==> a.scaled() == b.scaled(),
        a.zero() <==> a.scaled() == 0,
        b.zero() <==> b.scaled() == 0,
{
    let z = Double { bits: 0 };
    assert(z.scaled_magnitude() == 0) by {
        assert(z.significand() == 0);
        assert(0 * pow2(z.doublings()) == 0);
    }
    if a.magnitude() < b.magnitude() {
        lemma_scaled_magnitude_increases(a, b);
    }
    if b.magnitude() < a.magnitude() {
        lemma_scaled_magnitude_increases(b, a);
    }
    if 0 < a.magnitude() {
        lemma_scaled_magnitude_increases(z, a);
    }
    if 0 < b.magnitude() {
        lemma_scaled_magnitude_increases(z, b);
    }
    lemma_scaled_magnitude_below(a);
    lemma_scaled_magnitude_below(b);
    if a.magnitude() == b.magnitude() {
        assert(a.scaled_magnitude() == b.scaled_magnitude());
    }
    if a.magnitude() == 0 {
        assert(a.significand() == 0);
        assert(0 * pow2(a.doublings()) == 0);
    }
    if b.magnitude() == 0 {
        assert(b.significand() == 0);
        assert(0 * pow2(b.doublings()) == 0);
    }
}

/// Comparisons and tests, decided on the encodings.
impl Double {
    pub fn from_bits(bits: u64) -> (d: Double)
        ensures
            d.bits == bits,
    {
        Double { bits }
    }

    pub fn to_bits(self) -> (bits: u64)
        ensures
            bits == self.bits,
    {
        self.bits
    }

    /// The encoding with the sign bit cleared, as a machine integer.
    fn magnitude_bits(self) -> (m: u64)
        ensures
            m == self.magnitude(),
    {
        if self.bits >= SIGN_BIT {
            self.bits - SIGN_BIT
        } else {
            self.bits
        }
    }

    pub fn is_nan(self) -> (r: bool)
        ensures
            r == self.nan(),
    {
        self.magnitude_bits() > INFINITY
    }

    pub fn is_zero(self) -> (r: bool)
        ensures
            r == self.zero(),
    {
        self.magnitude_bits() == 0
    }

    /// `self <= other`, decided on the encodings.
    pub fn le(self, other: Double) -> (r: bool)
        ensures
            r == self.at_most(other),
    {
        proof {
            lemma_rank_orders_values(self, other);
        }
        if self.is_nan() || other.is_nan() {
            return false;
        }
        let a: u64 = self.magnitude_bits();
        let b: u64 = other.magnitude_bits();
        if self.bits >= SIGN_BIT {
            if other.bits >= SIGN_BIT {
                b <= a
            } else {
                true
            }
        } else {
            if other.bits >= SIGN_BIT {
                a == 0 && b == 0
            } else {
                a <= b
            }
        }
    }

    /// `self == other`, decided on the encodings.
    pub fn eq(self, other: Double) -> (r: bool)
        ensures
            r == self.same(other),
    {
        proof {
            lemma_rank_orders_values(self, other);
        }
        if self.is_nan() || other.is_nan() {
            return false;
        }
        let a: u64 = self.magnitude_bits();
        let b: u64 = other.magnitude_bits();
        self.bits == other.bits || (a == 0 && b == 0)
    }

    /// `self < other`, decided on the encodings.
    pub fn lt(self, other: Double) -> (r: bool)
        ensures
            r == self.below(other),
    {
        !other.le(self) && !self.is_nan() && !other.is_nan()
    }

    /// Whether `low <= self <= high`.
    pub fn is_within(self, low: Double, high: Double) -> (r: bool)
        ensures
            r == self.within(low, high),
    {
        low.le(self) && self.le(high)
    }
}

/// An interval with finite ends holds finite numbers only.
pub proof fn lemma_within_by_value(x: Double, low: Double, high: Double)
    requires
        low.finite(),
        high.finite(),
    ensures
        x.within(low, high) <==> x.finite() && low.scaled() <= x.scaled() <= high.scaled(),
{
    let top = Double { bits: INFINITY };
    lemma_rank_orders_values(high, top);
    lemma_rank_orders_values(low, top.negated());
    lemma_rank_orders_values(x, top);
    lemma_rank_orders_values(x, top.negated());
    assert(top.negated().scaled() == -top.scaled());
}

/// The value of a normal number that is written as `c` times a power of two:
/// with exponent bits `e` and fraction bits `f`, where the significand is `c`
/// times two to the power `s` and `s + e` is 1075, the number is `c`.
pub proof fn lemma_normal_value(d: Double, e: nat, f: nat, c: nat, s: nat)
    requires
        d.bits == e * HIDDEN_BIT + f,
        2 <= e < 2047,
        f < HIDDEN_BIT,
        HIDDEN_BIT + f == c * pow2(s),
        s + e == 1075,
    ensures
        d.finite(),
        !d.negative(),
        d.scaled() == c * pow2(1074),
{
    assert(d.exponent_field() == e);
    assert(d.fraction() == f);
    let k = (e - 1) as nat;
    lemma_pow2_adds(s, k);
    let ps = pow2(s) as int;
    let pk = pow2(k) as int;
    assert((c * ps) * pk == c * (ps * pk)) by (nonlinear_arith);
}

/// Whole numbers. Every 32-bit integer is a binary64 number, so these
/// conversions round nothing.
impl Double {
    /// The number `n`.
    pub fn from_u32(n: u32) -> (d: Double)
        ensures
            d.finite(),
            !d.negative(),
            d.scaled() == n * pow2(1074),
    {
        if n == 0 {
            let zero = Double { bits: 0 };
            proof {
                assert(zero.significand() == 0);
                assert(0 * pow2(zero.doublings()) == 0);
                assert(0 * pow2(1074) == 0);
            }
            return zero;
        }
        let mut m: u64 = n as u64;
        let mut s: u64 = 0;
        proof {
            lemma2_to64();
        }
        while m < HIDDEN_BIT
            invariant
                n > 0,
                0 < m < 2 * HIDDEN_BIT,
                s <= 52,
                m == n * pow2(s as nat),
            decreases 52 - s,
        {
            proof {
                lemma2_to64_rest();
                if s >= 52 {
                    if s > 52 {
                        lemma_pow2_strictly_increases(52, s as nat);
                    }
                    let p = pow2(s as nat) as int;
                    assert(n * p >= p) by (nonlinear_arith)
                        requires
                            n >= 1,
                            p >= 0,
                    ;
                }
                lemma_pow2_unfold((s + 1) as nat);
                let p = pow2(s as nat) as int;
                assert(n * (2 * p) == 2 * (n * p)) by (nonlinear_arith);
            }
            m = m * 2;
            s = s + 1;
        }
        let e: u64 = 1075 - s;
        let d = Double { bits: e * HIDDEN_BIT + (m - HIDDEN_BIT) };
        proof {
            assert(d.exponent_field() == e);
            assert(d.fraction() == m - HIDDEN_BIT);
            let k = (1074 - s) as nat;
            assert(d.doublings() == k);
            lemma_pow2_adds(s as nat, k);
            let ps = pow2(s as nat) as int;
            let pk = pow2(k) as int;
            assert((n * ps) * pk == n * (ps * pk)) by (nonlinear_arith);
        }
        d
    }

    /// The number `n`.
    pub fn from_i32(n: i32) -> (d: Double)
        ensures
            d.finite(),
            d.negative() == (n < 0),
            d.scaled() == n * pow2(1074),
    {
        if n >= 0 {
            Double::from_u32(n as u32)
        } else {
            let wide: i64 = n as i64;
            let size: u32 = (0 - wide) as u32;
            let positive = Double::from_u32(size);
            let d = Double { bits: positive.bits + SIGN_BIT };
            proof {
                assert(d.magnitude() == positive.magnitude());
                let p = pow2(1074) as int;
                assert(-(size * p) == n * p) by (nonlinear_arith)
                    requires
                        size == -n,
                ;
            }
            d
        }
    }
}

} // verus!
