use vstd::arithmetic::power2::{
    lemma_pow2_adds, lemma_pow2_pos, lemma_pow2_strictly_increases, lemma_pow2_unfold, pow2,
};
use vstd::prelude::*;

verus! {

/// The bit that holds the sign in a binary64 encoding.
pub const SIGN_BIT: u64 = 0x8000_0000_0000_0000;

/// The encoding of positive infinity: every larger magnitude encodes a NaN.
pub const INFINITY_BITS: u64 = 0x7FF0_0000_0000_0000;

/// The weight of the exponent field in an encoding: the fraction field lies
/// below it, and it is the bit that a normal number has in front of its fraction.
pub const HIDDEN_BIT: u64 = 0x0010_0000_0000_0000;

/// What a magnitude encodes, in units of 2^-1074, the smallest step between
/// doubles: for the exponent field 0 the fraction field itself, and else the
/// fraction field with the hidden bit before it, doubled once for each step of
/// the exponent field above 1.
pub open spec fn scaled(magnitude: int) -> int {
    let exponent_field = magnitude / (HIDDEN_BIT as int);
    let fraction_field = magnitude % (HIDDEN_BIT as int);
    if exponent_field == 0 {
        fraction_field
    } else {
        (HIDDEN_BIT + fraction_field) * pow2((exponent_field - 1) as nat)
    }
}

/// A larger magnitude encodes a larger number.
pub proof fn lemma_scaled_grows(smaller: int, larger: int)
    requires
        0 <= smaller < larger,
    ensures
        0 <= scaled(smaller) < scaled(larger),
{
    let hidden = HIDDEN_BIT as int;
    let small_exponent = smaller / hidden;
    let large_exponent = larger / hidden;
    let small_fraction = smaller % hidden;
    let large_fraction = larger % hidden;
    assert(0 <= small_exponent <= large_exponent && 0 <= small_fraction < hidden && 0
        <= large_fraction < hidden && (small_exponent == large_exponent ==> small_fraction
        < large_fraction)) by {
        assert(smaller == hidden * small_exponent + small_fraction);
        assert(larger == hidden * large_exponent + large_fraction);
        assert(small_exponent <= large_exponent) by (nonlinear_arith)
            requires
                hidden * small_exponent + small_fraction < hidden * large_exponent
                    + large_fraction,
                0 <= small_fraction < hidden,
                0 <= large_fraction < hidden,
        ;
    }
    if small_exponent == 0 {
        if large_exponent > 0 {
            let large_power = pow2((large_exponent - 1) as nat);
            lemma_pow2_pos((large_exponent - 1) as nat);
            assert(hidden <= (hidden + large_fraction) * large_power) by (nonlinear_arith)
                requires
                    large_power >= 1,
                    large_fraction >= 0,
                    hidden > 0,
            ;
        }
    } else {
        let small_power = pow2((small_exponent - 1) as nat);
        let large_power = pow2((large_exponent - 1) as nat);
        lemma_pow2_pos((small_exponent - 1) as nat);
        if small_exponent == large_exponent {
            assert((hidden + small_fraction) * small_power < (hidden + large_fraction)
                * small_power) by (nonlinear_arith)
                requires
                    small_fraction < large_fraction,
                    small_power >= 1,
            ;
        } else {
            lemma_pow2_unfold(small_exponent as nat);
            if small_exponent < large_exponent - 1 {
                lemma_pow2_strictly_increases(
                    small_exponent as nat,
                    (large_exponent - 1) as nat,
                );
            }
            assert(2 * small_power <= large_power);
            assert((hidden + small_fraction) * small_power < (hidden + large_fraction)
                * large_power) by (nonlinear_arith)
                requires
                    0 <= small_fraction < hidden,
                    0 <= large_fraction,
                    small_power >= 1,
                    2 * small_power <= large_power,
            ;
        }
        assert(0 <= (hidden + small_fraction) * small_power) by (nonlinear_arith)
            requires
                0 <= small_fraction,
                hidden > 0,
                small_power >= 1,
        ;
    }
}

/// A scalar reading of a noise field (an elevation or a moisture), held as the
/// IEEE 754 binary64 encoding of its value.
///
/// The encoding is what `to_bits` gives for a double and what `from_bits` takes.
/// Comparisons on a `Signal` are those of the doubles: a NaN is ordered with
/// nothing, and the two zeros are equal.
#[derive(Clone, Copy, Debug, PartialEq, Eq, Structural)]
pub struct Signal {
    pub bits: u64,
}

impl Signal {
    /// The encoding without its sign bit.
    pub open spec fn magnitude(self) -> int {
        if self.bits >= SIGN_BIT {
            self.bits - SIGN_BIT
        } else {
            self.bits as int
        }
    }

    /// Whether the encoding is that of a NaN.
    pub open spec fn nan(self) -> bool {
        self.magnitude() > INFINITY_BITS
    }

    /// The place of the encoded value on the number line: among the encodings
    /// that are no NaN, a value is smaller exactly when its rank is smaller.
    /// Both zeros have rank 0.
    pub open spec fn rank(self) -> int {
        if self.bits >= SIGN_BIT {
            -self.magnitude()
        } else {
            self.magnitude()
        }
    }

    /// The number that the encoding stands for, in units of 2^-1074. Positive
    /// and negative infinity stand beyond every number; for a NaN this has no
    /// meaning.
    pub open spec fn value(self) -> int {
        if self.bits >= SIGN_BIT {
            -scaled(self.magnitude())
        } else {
            scaled(self.magnitude())
        }
    }

    /// The distance from the number to the next double of larger magnitude,
    /// in units of 2^-1074.
    pub open spec fn step(self) -> int {
        let exponent_field = self.magnitude() / (HIDDEN_BIT as int);
        if exponent_field == 0 {
            1
        } else {
            pow2((exponent_field - 1) as nat) as int
        }
    }

    /// Whether the signal is the fraction `numerator / denominator` rounded to
    /// a double: a number that differs from the fraction by at most half a step.
    pub open spec fn rounds(self, numerator: int, denominator: int) -> bool {
        let error = self.value() * denominator - numerator * pow2(1074);
        &&& denominator > 0
        &&& !self.nan()
        &&& -denominator * self.step() <= 2 * error <= denominator * self.step()
    }

    /// `self < other`, as doubles.
    pub open spec fn below(self, other: Signal) -> bool {
        !self.nan() && !other.nan() && self.rank() < other.rank()
    }

    /// `self <= other`, as doubles.
    pub open spec fn at_most(self, other: Signal) -> bool {
        !self.nan() && !other.nan() && self.rank() <= other.rank()
    }

    pub fn from_bits(bits: u64) -> (signal: Signal)
        ensures
            signal.bits == bits,
    {
        Signal { bits }
    }

    pub fn to_bits(self) -> (bits: u64)
        ensures
            bits == self.bits,
    {
        self.bits
    }

    pub fn is_nan(self) -> (r: bool)
        ensures
            r == self.nan(),
    {
        let magnitude: u64 = if self.bits >= SIGN_BIT {
            self.bits - SIGN_BIT
        } else {
            self.bits
        };
        magnitude > INFINITY_BITS
    }

    fn position(self) -> (r: i128)
        ensures
            r == self.rank(),
    {
        if self.bits >= SIGN_BIT {
            -((self.bits - SIGN_BIT) as i128)
        } else {
            self.bits as i128
        }
    }

    pub fn lt(self, other: Signal) -> (r: bool)
        ensures
            r == self.below(other),
    {
        !self.is_nan() && !other.is_nan() && self.position() < other.position()
    }

    pub fn le(self, other: Signal) -> (r: bool)
        ensures
            r == self.at_most(other),
    {
        !self.is_nan() && !other.is_nan() && self.position() <= other.position()
    }

    pub fn gt(self, other: Signal) -> (r: bool)
        ensures
            r == other.below(self),
    {
        other.lt(self)
    }

    pub fn ge(self, other: Signal) -> (r: bool)
        ensures
            r == other.at_most(self),
    {
        other.le(self)
    }
}

/// The ranks of two encodings are ordered as the numbers that they stand for,
/// so `below` and `at_most` compare the numbers.
pub proof fn lemma_rank_orders_the_numbers(a: Signal, b: Signal)
    ensures
        a.rank() < b.rank() <==> a.value() < b.value(),
        a.rank() == b.rank() <==> a.value() == b.value(),
        a.rank() == 0 <==> a.value() == 0,
{
    let zero: int = 0;
    assert(scaled(zero) == 0);
    if a.magnitude() > 0 {
        lemma_scaled_grows(0, a.magnitude());
    }
    if b.magnitude() > 0 {
        lemma_scaled_grows(0, b.magnitude());
    }
    if a.magnitude() < b.magnitude() {
        lemma_scaled_grows(a.magnitude(), b.magnitude());
    }
    if b.magnitude() < a.magnitude() {
        lemma_scaled_grows(b.magnitude(), a.magnitude());
    }
}

/// A normal number whose significand, taken with its sign and `shift` binary
/// places after the point, differs from a fraction by at most half a unit in
/// its last place is the fraction rounded to a double.
pub proof fn lemma_rounds(signal: Signal, numerator: int, denominator: int, shift: nat)
    requires
        !signal.nan(),
        denominator > 0,
        signal.magnitude() / (HIDDEN_BIT as int) >= 1,
        signal.magnitude() / (HIDDEN_BIT as int) - 1 + shift == 1074,
        ({
            let significand = HIDDEN_BIT + signal.magnitude() % (HIDDEN_BIT as int);
            let signed = if signal.bits >= SIGN_BIT {
                -significand
            } else {
                significand
            };
            -denominator <= 2 * (signed * denominator - numerator * pow2(shift)) <= denominator
        }),
    ensures
        signal.rounds(numerator, denominator),
{
    let exponent_field = signal.magnitude() / (HIDDEN_BIT as int);
    let significand = HIDDEN_BIT + signal.magnitude() % (HIDDEN_BIT as int);
    let signed = if signal.bits >= SIGN_BIT {
        -significand
    } else {
        significand
    };
    let step = pow2((exponent_field - 1) as nat) as int;
    let unit = pow2(shift) as int;
    lemma_pow2_pos((exponent_field - 1) as nat);
    lemma_pow2_adds(shift, (exponent_field - 1) as nat);
    assert(pow2(1074) == unit * step);
    assert(signal.value() == signed * step) by (nonlinear_arith)
        requires
            signal.value() == if signal.bits >= SIGN_BIT {
                -(significand * step)
            } else {
                significand * step
            },
            signed == if signal.bits >= SIGN_BIT {
                -significand
            } else {
                significand
            },
    ;
    let error = signal.value() * denominator - numerator * pow2(1074);
    let error_in_steps = signed * denominator - numerator * unit;
    assert(error == error_in_steps * step) by (nonlinear_arith)
        requires
            error == (signed * step) * denominator - numerator * (unit * step),
            error_in_steps == signed * denominator - numerator * unit,
    ;
    assert(-denominator * step <= 2 * (error_in_steps * step) <= denominator * step)
        by (nonlinear_arith)
        requires
            -denominator <= 2 * error_in_steps <= denominator,
            step >= 1,
    ;
}

/// Of two signals that are numbers exactly one is below the other, or they
/// are the same number; a NaN is neither below nor at most anything, nor is
/// anything below or at most a NaN.
pub proof fn lemma_order_of_signals(a: Signal, b: Signal, c: Signal)
    ensures
        !a.nan() && !b.nan() ==> (a.below(b) || b.below(a) || a.value() == b.value()),
        !(a.below(b) && b.below(a)),
        a.at_most(b) <==> (a.below(b) || (!a.nan() && !b.nan() && a.value() == b.value())),
        !a.nan() && !b.nan() ==> (a.below(b) <==> !b.at_most(a)),
        a.below(b) && b.below(c) ==> a.below(c),
        a.nan() ==> !a.below(b) && !b.below(a) && !a.at_most(b) && !b.at_most(a),
{
    lemma_rank_orders_the_numbers(a, b);
}

} // verus!
