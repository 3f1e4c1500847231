//! Double-precision numbers by their bit patterns.
//!
//! Pools and grinders report difficulties, weights and tenures as IEEE 754
//! doubles. Here such a number is carried as its 64 bits, and what the miner
//! decides from it (which is larger, where its leading power of two lies) is
//! decided on those bits.

use vstd::arithmetic::power2::{
    lemma2_to64, lemma2_to64_rest, lemma_pow2_adds, lemma_pow2_pos, lemma_pow2_strictly_increases, pow2,
};
use vstd::prelude::*;

verus! {

/// A double, by its bit pattern.
#[derive(Clone, Copy, Debug, PartialEq, Eq, Structural)]
pub struct Double {
    pub bits: u64,
}

impl Double {
    /// The sign bit.
    pub open spec fn negative(self) -> bool {
        self.bits >= 0x8000_0000_0000_0000
    }

    /// Exponent and fraction fields together.
    pub open spec fn magnitude(self) -> int {
        if self.bits >= 0x8000_0000_0000_0000 {
            self.bits - 0x8000_0000_0000_0000
        } else {
            self.bits as int
        }
    }

    /// Not a number.
    pub open spec fn nan(self) -> bool {
        self.magnitude() > 0x7ff0_0000_0000_0000
    }

    /// The number in units of the smallest positive double, `2^-1074`. An
    /// infinity counts as the next power of two after the largest double.
    pub open spec fn units(self) -> int {
        if self.negative() {
            -(units_of(self.magnitude()) as int)
        } else {
            units_of(self.magnitude()) as int
        }
    }

    /// `self < other` as doubles compare: false if either is not a number.
    pub open spec fn spec_below(self, other: Double) -> bool {
        !self.nan() && !other.nan() && self.units() < other.units()
    }

    /// `self == other` as doubles compare: false if either is not a number.
    pub open spec fn spec_equals(self, other: Double) -> bool {
        !self.nan() && !other.nan() && self.units() == other.units()
    }

    /// Whether the number equals another. What is not a number equals nothing.
    pub fn equals(self, other: Double) -> (r: bool)
        ensures
            r == self.spec_equals(other),
    {
        let top: u64 = 0x7ff0_0000_0000_0000;
        let sign: u64 = 0x8000_0000_0000_0000;
        let a: u64 = if self.bits >= sign { self.bits - sign } else { self.bits };
        let b: u64 = if other.bits >= sign { other.bits - sign } else { other.bits };
        !(a > top || b > top) && !self.below(other) && !other.below(self)
    }

    /// Whether the number is smaller than another. Nothing is smaller than,
    /// or larger than, what is not a number.
    pub fn below(self, other: Double) -> (r: bool)
        ensures
            r == self.spec_below(other),
    {
        let sign: u64 = 0x8000_0000_0000_0000;
        let a: u64 = if self.bits >= sign { self.bits - sign } else { self.bits };
        let b: u64 = if other.bits >= sign { other.bits - sign } else { other.bits };
        let top: u64 = 0x7ff0_0000_0000_0000;
        proof {
            lemma_units_order(a as int, b as int);
            lemma_units_order(b as int, a as int);
            lemma_units_order(0, a as int);
            lemma_units_order(0, b as int);
        }
        if a > top || b > top {
            false
        } else if self.bits >= sign {
            if other.bits >= sign {
                b < a
            } else {
                a > 0 || b > 0
            }
        } else {
            if other.bits >= sign {
                false
            } else {
                a < b
            }
        }
    }
}

/// The value of a magnitude field in units of `2^-1074`.
pub open spec fn units_of(magnitude: int) -> nat {
    let exponent = magnitude / 0x10_0000_0000_0000;
    let fraction = magnitude % 0x10_0000_0000_0000;
    if exponent == 0 {
        fraction as nat
    } else {
        (0x10_0000_0000_0000 + fraction) as nat * pow2((exponent - 1) as nat)
    }
}

/// Magnitude fields are ordered as the numbers they stand for.
pub proof fn lemma_units_order(a: int, b: int)
    requires
        0 <= a,
        0 <= b,
    ensures
        a < b <==> units_of(a) < units_of(b),
        units_of(0) == 0,
{
    assert forall|x: int, y: int| 0 <= x < y implies units_of(x) < units_of(y) by {
        lemma_units_increase(x, y);
    }
    assert(pow2(0) == 1) by {
        lemma2_to64();
    }
}

proof fn lemma_units_increase(x: int, y: int)
    requires
        0 <= x < y,
    ensures
        units_of(x) < units_of(y),
{
    let one = 0x10_0000_0000_0000int;
    let (ex, fx) = (x / one, x % one);
    let (ey, fy) = (y / one, y % one);
    assert(x == one * ex + fx && y == one * ey + fy && 0 <= fx < one && 0 <= fy < one);
    assert(ex <= ey);
    lemma2_to64();
    if ex == ey {
        assert(fx < fy);
        if ex > 0 {
            lemma_pow2_pos((ex - 1) as nat);
            assert((one + fx) * pow2((ex - 1) as nat) < (one + fy) * pow2((ex - 1) as nat))
                by (nonlinear_arith)
                requires
                    fx < fy,
                    pow2((ex - 1) as nat) > 0,
            ;
        }
    } else {
        let p = pow2((ey - 1) as nat) as int;
        lemma_pow2_pos((ey - 1) as nat);
        assert((one + fy) * p >= one * p) by (nonlinear_arith)
            requires
                fy >= 0,
                p > 0,
        ;
        if ex == 0 {
            assert(one * p >= one) by (nonlinear_arith)
                requires
                    p > 0,
                    one > 0,
            ;
        } else {
            let q = pow2((ex - 1) as nat) as int;
            lemma_pow2_pos((ex - 1) as nat);
            assert(2 * q <= p) by {
                lemma_pow2_adds(1, (ex - 1) as nat);
                if ex < ey - 1 {
                    lemma_pow2_strictly_increases(ex as nat, (ey - 1) as nat);
                }
            }
            assert((one + fx) * q < one * p) by (nonlinear_arith)
                requires
                    0 <= fx < one,
                    2 * q <= p,
                    q > 0,
                    one > 0,
            ;
        }
    }
}

// ----------------------------------------------------------- whole numbers

/// Up to this size every whole number is a double, `2^53`.
pub const EXACT: u64 = 0x20_0000_0000_0000;

/// Whether a double is a whole number.
pub open spec fn exactly(d: Double, n: int) -> bool {
    &&& !d.nan()
    &&& d.negative() == (n < 0)
    &&& d.units() == n * pow2(1074)
}

/// The double that a whole number is.
pub open spec fn whole(n: int) -> Double {
    choose|d: Double| exactly(d, n)
}

/// There is at most one such double.
pub proof fn lemma_whole_is_unique(d: Double, n: int)
    requires
        exactly(d, n),
    ensures
        d == whole(n),
{
    let e = whole(n);
    assert(exactly(e, n));
    lemma_units_order(d.magnitude(), e.magnitude());
    lemma_units_order(e.magnitude(), d.magnitude());
}

/// A positive number lies between two neighbouring powers of two.
pub proof fn lemma_leading_bit(n: nat) -> (k: nat)
    requires
        n > 0,
    ensures
        pow2(k) <= n < pow2(k + 1),
    decreases n,
{
    lemma2_to64();
    if n == 1 {
        0
    } else {
        let k = lemma_leading_bit(n / 2);
        lemma_pow2_adds(1, k);
        lemma_pow2_adds(1, k + 1);
        k + 1
    }
}

proof fn lemma_whole_magnitude(n: nat) -> (m: int)
    requires
        n <= EXACT,
    ensures
        0 <= m <= 0x7ff0_0000_0000_0000,
        units_of(m) == n * pow2(1074),
{
    let one = 0x10_0000_0000_0000int;
    lemma2_to64();
    lemma2_to64_rest();
    if n == 0 {
        0
    } else {
        let k = lemma_leading_bit(n);
        if k > 53 {
            lemma_pow2_strictly_increases(53, k);
        }
        if k == 53 {
            lemma_pow2_adds(52, 1075);
            lemma_pow2_adds(53, 1074);
            1076 * one
        } else {
            let (p, q) = (pow2(k) as int, pow2((52 - k) as nat) as int);
            let f = (n - p) * q;
            lemma_pow2_adds(k, (52 - k) as nat);
            lemma_pow2_adds(1, k);
            lemma_pow2_pos((52 - k) as nat);
            assert(0 <= f < one && one + f == n * q) by (nonlinear_arith)
                requires
                    f == (n - p) * q,
                    p * q == one,
                    p <= n < 2 * p,
                    q > 0,
            ;
            let m = (1023 + k) * one + f;
            assert(m / one == 1023 + k && m % one == f);
            let r = pow2((1022 + k) as nat) as int;
            lemma_pow2_adds((52 - k) as nat, (1022 + k) as nat);
            assert((n * q) * r == n * (q * r)) by (nonlinear_arith);
            m
        }
    }
}

/// Up to `2^53` there is such a double.
pub proof fn lemma_whole_is_there(n: int)
    requires
        -(EXACT as int) <= n <= EXACT,
    ensures
        exactly(whole(n), n),
{
    if n < 0 {
        let m = lemma_whole_magnitude((-n) as nat);
        let d = Double { bits: (m + 0x8000_0000_0000_0000) as u64 };
        assert((-n) * pow2(1074) == -(n * pow2(1074))) by (nonlinear_arith);
        assert(exactly(d, n));
    } else {
        let m = lemma_whole_magnitude(n as nat);
        let d = Double { bits: m as u64 };
        assert(exactly(d, n));
    }
}

/// Law: of two numbers, exactly one of "the first is below", "the second is
/// below" and "both have the same value" holds.
pub proof fn law_doubles_are_totally_ordered(a: Double, b: Double)
    requires
        !a.nan(),
        !b.nan(),
    ensures
        a.spec_below(b) || b.spec_below(a) || a.units() == b.units(),
        !(a.spec_below(b) && b.spec_below(a)),
        a.units() == b.units() ==> !a.spec_below(b) && !b.spec_below(a),
{
}

} // verus!
