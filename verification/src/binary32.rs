//! Single-precision values as bit patterns.
//!
//! The terrain is sampled in IEEE 754 single precision. The library never
//! rounds such a value; it only compares two of them and takes the floor of
//! one, and both are exact on the 32 bits of each operand. A value is
//! therefore held as its bit pattern: one sign bit above 31 bits of
//! magnitude, where the magnitude orders the values of one sign, a magnitude
//! above that of infinity is a NaN, and both zeros are equal.

use vstd::arithmetic::div_mod::lemma_fundamental_div_mod_converse;
use vstd::arithmetic::power2::lemma2_to64;
use vstd::arithmetic::power2::lemma_pow2_pos;
use vstd::arithmetic::power2::lemma_pow2_strictly_increases;
use vstd::arithmetic::power2::lemma_pow2_unfold;
use vstd::arithmetic::power2::pow2;
use vstd::prelude::*;

verus! {

/// The sign bit of a pattern.
pub const SIGN_BIT: u32 = 0x8000_0000;

/// The magnitude of infinity; every larger magnitude is a NaN.
pub const INFINITY_MAGNITUDE: u32 = 0x7F80_0000;

/// The least magnitude with a biased exponent of one: below it stand the
/// fraction bits, above it the eight bits of the biased exponent.
pub const FRACTION_SPAN: u32 = 0x80_0000;

/// The biased exponent of the values between 2^23 and 2^24, whose unit in the
/// last place is one.
pub const UNIT_EXPONENT: u32 = 150;

/// A single-precision value, held as its bit pattern.
#[derive(Clone, Copy, Debug, PartialEq, Eq, Structural)]
pub struct Binary32 {
    pub bits: u32,
}

impl Binary32 {
    /// The pattern without its sign bit.
    pub open spec fn magnitude(self) -> int {
        if self.bits >= SIGN_BIT {
            self.bits - SIGN_BIT
        } else {
            self.bits as int
        }
    }

    /// Whether the sign bit is set.
    pub open spec fn negative(self) -> bool {
        self.bits >= SIGN_BIT
    }

    /// Whether the pattern is a NaN.
    pub open spec fn spec_is_nan(self) -> bool {
        self.magnitude() > INFINITY_MAGNITUDE
    }

    /// The place of a value that is no NaN on the number line: its magnitude,
    /// negated under a set sign bit. Two values that are no NaN compare as
    /// their places do; the two zeros share the place 0.
    pub open spec fn place(self) -> int {
        if self.negative() {
            -self.magnitude()
        } else {
            self.magnitude()
        }
    }

    /// `self < other` as IEEE 754 defines it: false if either is a NaN.
    pub open spec fn spec_lt(self, other: Binary32) -> bool {
        !self.spec_is_nan() && !other.spec_is_nan() && self.place() < other.place()
    }

    /// `self > other` as IEEE 754 defines it: false if either is a NaN.
    pub open spec fn spec_gt(self, other: Binary32) -> bool {
        other.spec_lt(self)
    }

    /// The place of a value in the total order that ranks distances: that of
    /// `place` for a value that is no NaN, and one place above infinity for
    /// every NaN. So all NaNs are equal and greater than every other value.
    pub open spec fn rank_key(self) -> int {
        if self.spec_is_nan() {
            INFINITY_MAGNITUDE + 1
        } else {
            self.place()
        }
    }

    /// The biased exponent, from 0 to 255.
    pub open spec fn exponent(self) -> int {
        self.magnitude() / (FRACTION_SPAN as int)
    }

    /// The significand in units of the last place: the fraction bits, and
    /// above them the hidden bit of every value with a biased exponent.
    pub open spec fn significand(self) -> int {
        if self.exponent() == 0 {
            self.magnitude() % (FRACTION_SPAN as int)
        } else {
            self.magnitude() % (FRACTION_SPAN as int) + FRACTION_SPAN
        }
    }

    /// The power of two that the unit in the last place stands for: a value
    /// that is neither infinite nor a NaN is `significand * 2^scale`, negated
    /// under a set sign bit.
    pub open spec fn scale(self) -> int {
        if self.exponent() == 0 {
            1 - UNIT_EXPONENT
        } else {
            self.exponent() - UNIT_EXPONENT
        }
    }

    /// The significand with the sign of the value.
    pub open spec fn signed_significand(self) -> int {
        if self.negative() {
            -self.significand()
        } else {
            self.significand()
        }
    }

    /// Whether the value of `self` is below that of `other`, each taken as
    /// its signed significand times two to the power of its scale, and both
    /// brought to the smaller of the two scales.
    pub open spec fn value_below(self, other: Binary32) -> bool {
        let low = if self.scale() <= other.scale() {
            self.scale()
        } else {
            other.scale()
        };
        self.signed_significand() * pow2((self.scale() - low) as nat) < other.signed_significand()
            * pow2((other.scale() - low) as nat)
    }

    /// The greatest integer that is not above the value. For an infinity it
    /// lies beyond every 32-bit integer, on the side of its sign.
    pub open spec fn floor(self) -> int {
        if self.scale() >= 0 {
            self.signed_significand() * pow2(self.scale() as nat)
        } else {
            self.signed_significand() / (pow2((-self.scale()) as nat) as int)
        }
    }

    /// The lattice cell that the value falls into: its floor, held to the
    /// range of the lattice coordinates, and 0 for a NaN.
    pub open spec fn spec_floor_cell(self) -> i32 {
        if self.spec_is_nan() {
            0
        } else if self.floor() > i32::MAX {
            i32::MAX
        } else if self.floor() < i32::MIN {
            i32::MIN
        } else {
            self.floor() as i32
        }
    }

    /// Wraps a bit pattern.
    pub fn from_bits(bits: u32) -> (v: Binary32)
        ensures
            v.bits == bits,
    {
        Binary32 { bits }
    }

    /// The bit pattern.
    pub fn to_bits(self) -> (bits: u32)
        ensures
            bits == self.bits,
    {
        self.bits
    }

    /// Whether the value is a NaN.
    pub fn is_nan(self) -> (r: bool)
        ensures
            r == self.spec_is_nan(),
    {
        if self.bits >= SIGN_BIT {
            self.bits - SIGN_BIT > INFINITY_MAGNITUDE
        } else {
            self.bits > INFINITY_MAGNITUDE
        }
    }

    /// The value's place in the total order that ranks distances.
    pub fn total_key(self) -> (k: i64)
        ensures
            k == self.rank_key(),
    {
        if self.is_nan() {
            0x7F80_0001
        } else if self.bits >= SIGN_BIT {
            let m: u32 = self.bits - SIGN_BIT;
            -(m as i64)
        } else {
            self.bits as i64
        }
    }

    /// `self < other`; false if either is a NaN.
    pub fn lt(self, other: Binary32) -> (r: bool)
        ensures
            r == self.spec_lt(other),
    {
        !self.is_nan() && !other.is_nan() && self.total_key() < other.total_key()
    }

    /// `self > other`; false if either is a NaN.
    pub fn gt(self, other: Binary32) -> (r: bool)
        ensures
            r == self.spec_gt(other),
    {
        other.lt(self)
    }

    /// The lattice cell that the value falls into.
    pub fn floor_cell(self) -> (cell: i32)
        ensures
            cell == self.spec_floor_cell(),
    {
        if self.is_nan() {
            return 0;
        }
        let negative = self.bits >= SIGN_BIT;
        let magnitude: u32 = if negative {
            self.bits - SIGN_BIT
        } else {
            self.bits
        };
        let exponent: u32 = magnitude / FRACTION_SPAN;
        let fraction: u32 = magnitude % FRACTION_SPAN;
        proof {
            lemma2_to64();
        }
        if exponent == 0 {
            proof {
                lemma_pow2_strictly_increases(23, 149);
                lemma_small_quotient(fraction as int, pow2(149) as int);
            }
            if negative && fraction > 0 {
                -1
            } else {
                0
            }
        } else if exponent >= UNIT_EXPONENT + 8 {
            proof {
                let up = (exponent - UNIT_EXPONENT) as nat;
                if up > 8 {
                    lemma_pow2_strictly_increases(8, up);
                }
                lemma_product_at_least((fraction + FRACTION_SPAN) as int, pow2(up) as int, 256);
            }
            if negative {
                i32::MIN
            } else {
                i32::MAX
            }
        } else if exponent >= UNIT_EXPONENT {
            let up: u32 = exponent - UNIT_EXPONENT;
            let unit: u32 = power_of_two(up);
            proof {
                if up < 7 {
                    lemma_pow2_strictly_increases(up as nat, 7);
                }
                lemma_product_below((fraction + FRACTION_SPAN) as int, unit as int, 128);
            }
            let whole: u32 = (fraction + FRACTION_SPAN) * unit;
            if negative {
                -(whole as i32)
            } else {
                whole as i32
            }
        } else {
            let down: u32 = UNIT_EXPONENT - exponent;
            let significand: u32 = fraction + FRACTION_SPAN;
            if down >= 24 {
                proof {
                    if down > 24 {
                        lemma_pow2_strictly_increases(24, down as nat);
                    }
                    lemma_small_quotient(significand as int, pow2(down as nat) as int);
                }
                if negative {
                    -1
                } else {
                    0
                }
            } else {
                let unit: u32 = power_of_two(down);
                proof {
                    lemma_pow2_pos(down as nat);
                    lemma_negated_quotient(significand as int, unit as int);
                }
                let whole: u32 = significand / unit;
                if !negative {
                    whole as i32
                } else if significand % unit == 0 {
                    -(whole as i32)
                } else {
                    -(whole as i32) - 1
                }
            }
        }
    }
}

proof fn lemma_wider_scale_is_above(small: Binary32, large: Binary32)
    requires
        small.scale() < large.scale(),
    ensures
        small.magnitude() < large.magnitude(),
        small.significand() < large.significand() * pow2((large.scale() - small.scale()) as nat),
        small.significand() >= 0,
        large.significand() > 0,
{
    let up = (large.scale() - small.scale()) as nat;
    lemma2_to64();
    if up > 1 {
        lemma_pow2_strictly_increases(1, up);
    }
    assert(large.significand() * pow2(up) >= 2 * FRACTION_SPAN) by (nonlinear_arith)
        requires
            large.significand() >= FRACTION_SPAN,
            pow2(up) >= 2,
    ;
}

proof fn lemma_magnitude_orders_by_value(a: Binary32, b: Binary32)
    ensures
        a.magnitude() < b.magnitude() <==> {
            let low = if a.scale() <= b.scale() {
                a.scale()
            } else {
                b.scale()
            };
            a.significand() * pow2((a.scale() - low) as nat) < b.significand() * pow2(
                (b.scale() - low) as nat,
            )
        },
        a.significand() >= 0,
        a.magnitude() > 0 <==> a.significand() > 0,
{
    lemma2_to64();
    if a.scale() < b.scale() {
        lemma_wider_scale_is_above(a, b);
        assert(a.significand() * pow2(0) == a.significand()) by (nonlinear_arith)
            requires
                pow2(0) == 1,
        ;
    } else if b.scale() < a.scale() {
        lemma_wider_scale_is_above(b, a);
        assert(b.significand() * pow2(0) == b.significand()) by (nonlinear_arith)
            requires
                pow2(0) == 1,
        ;
    } else {
        assert(a.significand() * pow2(0) == a.significand()) by (nonlinear_arith)
            requires
                pow2(0) == 1,
        ;
        assert(b.significand() * pow2(0) == b.significand()) by (nonlinear_arith)
            requires
                pow2(0) == 1,
        ;
    }
}

/// The place of a pattern orders it by its value: one pattern stands at a
/// lower place than another exactly if its value is below the other's.
pub proof fn place_orders_by_value(a: Binary32, b: Binary32)
    ensures
        a.place() < b.place() <==> a.value_below(b),
{
    let low = if a.scale() <= b.scale() {
        a.scale()
    } else {
        b.scale()
    };
    let pa = pow2((a.scale() - low) as nat) as int;
    let pb = pow2((b.scale() - low) as nat) as int;
    let sa = a.significand();
    let sb = b.significand();
    lemma_pow2_pos((a.scale() - low) as nat);
    lemma_pow2_pos((b.scale() - low) as nat);
    lemma_magnitude_orders_by_value(a, b);
    lemma_magnitude_orders_by_value(b, a);
    assert((-sa) * pa == -(sa * pa)) by (nonlinear_arith);
    assert((-sb) * pb == -(sb * pb)) by (nonlinear_arith);
    assert(sa * pa >= 0 && (sa > 0 ==> sa * pa > 0)) by (nonlinear_arith)
        requires
            sa >= 0,
            pa > 0,
    ;
    assert(sb * pb >= 0 && (sb > 0 ==> sb * pb > 0)) by (nonlinear_arith)
        requires
            sb >= 0,
            pb > 0,
    ;
}

/// The floor of a value lies at or below the value, and less than one
/// below it: a value with a unit of `1 / 2^k` and the signed significand `n`
/// has `floor * 2^k <= n < (floor + 1) * 2^k`, and a value whose unit is a
/// whole number is its own floor.
pub proof fn floor_is_within_one_below(v: Binary32)
    ensures
        v.scale() < 0 ==> v.floor() * pow2((-v.scale()) as nat) <= v.signed_significand() < (v.floor()
            + 1) * pow2((-v.scale()) as nat),
        v.scale() >= 0 ==> v.floor() == v.signed_significand() * pow2(v.scale() as nat),
{
    if v.scale() < 0 {
        let k = (-v.scale()) as nat;
        let d = pow2(k) as int;
        let n = v.signed_significand();
        lemma_pow2_pos(k);
        assert(d * (n / d) <= n < d * (n / d) + d) by (nonlinear_arith)
            requires
                d > 0,
        {
            assert(n == d * (n / d) + n % d);
            assert(0 <= n % d < d);
        }
        assert((n / d) * d == d * (n / d)) by (nonlinear_arith);
        assert((n / d + 1) * d == d * (n / d) + d) by (nonlinear_arith);
    }
}

proof fn lemma_small_quotient(m: int, d: int)
    requires
        0 <= m < d,
    ensures
        m / d == 0,
        m > 0 ==> (-m) / d == -1,
        m == 0 ==> (-m) / d == 0,
{
    lemma_fundamental_div_mod_converse(m, d, 0, m);
    if m > 0 {
        lemma_fundamental_div_mod_converse(-m, d, -1, d - m);
    }
}

proof fn lemma_negated_quotient(m: int, d: int)
    requires
        0 <= m,
        0 < d,
    ensures
        0 <= m / d <= m,
        m % d == 0 ==> (-m) / d == -(m / d),
        m % d != 0 ==> (-m) / d == -(m / d) - 1,
{
    let q = m / d;
    let r = m % d;
    assert(m == d * q + r && 0 <= r < d) by (nonlinear_arith)
        requires
            0 < d,
            q == m / d,
            r == m % d,
    ;
    assert(0 <= q <= m) by (nonlinear_arith)
        requires
            m == d * q + r,
            0 <= r < d,
            0 <= m,
            0 < d,
    ;
    if r == 0 {
        assert(-m == (-q) * d + 0) by (nonlinear_arith)
            requires
                m == d * q + r,
                r == 0,
        ;
        lemma_fundamental_div_mod_converse(-m, d, -q, 0);
    } else {
        assert(-m == (-q - 1) * d + (d - r)) by (nonlinear_arith)
            requires
                m == d * q + r,
        ;
        lemma_fundamental_div_mod_converse(-m, d, -q - 1, d - r);
    }
}

proof fn lemma_product_at_least(m: int, p: int, least: int)
    requires
        FRACTION_SPAN <= m,
        0 <= least <= p,
    ensures
        m * p >= FRACTION_SPAN * least,
        (-m) * p <= -(FRACTION_SPAN * least),
{
    assert(m * p >= FRACTION_SPAN * least) by (nonlinear_arith)
        requires
            FRACTION_SPAN <= m,
            0 <= least <= p,
    ;
    assert((-m) * p == -(m * p)) by (nonlinear_arith);
}

proof fn lemma_product_below(m: int, p: int, most: int)
    requires
        0 <= m < 2 * FRACTION_SPAN,
        0 <= p <= most,
        0 < most,
    ensures
        0 <= m * p < 2 * FRACTION_SPAN * most,
        (-m) * p == -(m * p),
{
    assert(0 <= m * p < 2 * FRACTION_SPAN * most) by (nonlinear_arith)
        requires
            0 <= m < 2 * FRACTION_SPAN,
            0 <= p <= most,
            0 < most,
    {
        assert(m * p <= m * most);
        assert(m * most < 2 * FRACTION_SPAN * most);
    }
    assert((-m) * p == -(m * p)) by (nonlinear_arith);
}

/// Two to the power of `k`.
fn power_of_two(k: u32) -> (p: u32)
    requires
        k < 32,
    ensures
        p == pow2(k as nat),
{
    let mut p: u32 = 1;
    let mut i: u32 = 0;
    proof {
        lemma2_to64();
    }
    while i < k
        invariant
            i <= k < 32,
            p == pow2(i as nat),
        decreases k - i,
    {
        proof {
            lemma2_to64();
            lemma_pow2_unfold((i + 1) as nat);
            if i + 1 < 31 {
                lemma_pow2_strictly_increases((i + 1) as nat, 31);
            }
        }
        p = p * 2;
        i += 1;
    }
    p
}

} // verus!
