//! Floating-point numbers as their IEEE 754 bit patterns: carried, ordered and
//! negated, never added or multiplied.

use vstd::prelude::*;

verus! {

/// The sign bit of a double.
pub const DOUBLE_SIGN: u64 = 0x8000_0000_0000_0000;

/// The bits of the double infinity.
pub const DOUBLE_INFINITY: u64 = 0x7ff0_0000_0000_0000;

/// The bits of the double one.
pub const DOUBLE_ONE: u64 = 0x3ff0_0000_0000_0000;

/// The sign bit of a single.
pub const SINGLE_SIGN: u32 = 0x8000_0000;

/// The bits of the single infinity.
pub const SINGLE_INFINITY: u32 = 0x7f80_0000;

/// The bits of the single one.
pub const SINGLE_ONE: u32 = 0x3f80_0000;

/// A number in IEEE 754 double format.
#[derive(Clone, Copy, Debug, PartialEq, Eq, Structural)]
pub struct Double {
    pub bits: u64,
}

/// A number in IEEE 754 single format.
#[derive(Clone, Copy, Debug, PartialEq, Eq, Structural)]
pub struct Single {
    pub bits: u32,
}

impl Double {
    /// The bits without the sign. Larger bits are a larger absolute value.
    pub open spec fn magnitude(self) -> int {
        if self.bits < DOUBLE_SIGN {
            self.bits as int
        } else {
            self.bits - DOUBLE_SIGN
        }
    }

    /// Whether this is no number.
    pub open spec fn is_nan(self) -> bool {
        self.magnitude() > DOUBLE_INFINITY
    }

    /// A number that orders as the double does, for all doubles but NaN. Both
    /// zeros have the rank zero.
    pub open spec fn rank(self) -> int {
        if self.bits < DOUBLE_SIGN {
            self.magnitude()
        } else {
            -self.magnitude()
        }
    }

    /// Whether this is neither NaN nor below `low` nor above `high`.
    pub open spec fn lies_in(self, low: Double, high: Double) -> bool {
        !self.is_nan() && low.rank() <= self.rank() <= high.rank()
    }

    /// Whether this is no NaN and above zero.
    pub open spec fn is_positive(self) -> bool {
        !self.is_nan() && self.rank() > 0
    }

    /// The number with the other sign.
    pub open spec fn opposite(self) -> Double {
        if self.bits < DOUBLE_SIGN {
            Double { bits: (self.bits + DOUBLE_SIGN) as u64 }
        } else {
            Double { bits: (self.bits - DOUBLE_SIGN) as u64 }
        }
    }

    /// Whether neither is NaN and this is below the other.
    pub open spec fn precedes(self, other: Double) -> bool {
        !self.is_nan() && !other.is_nan() && self.rank() < other.rank()
    }

    /// Whether neither is NaN and this is not above the other.
    pub open spec fn reaches_no_further(self, other: Double) -> bool {
        !self.is_nan() && !other.is_nan() && self.rank() <= other.rank()
    }

    /// The nearest number from zero to one; NaN stays NaN.
    pub open spec fn held_in_unit(self) -> Double {
        if self.precedes(Double { bits: 0 }) {
            Double { bits: 0 }
        } else if (Double { bits: DOUBLE_ONE }).precedes(self) {
            Double { bits: DOUBLE_ONE }
        } else {
            self
        }
    }

    /// Zero.
    pub fn zero() -> (zero: Double)
        ensures
            zero == (Double { bits: 0 }),
    {
        Double { bits: 0 }
    }

    /// Whether the absolute value is at most that of a bound whose bits are
    /// given without a sign. Neither NaN nor an infinity is within a finite
    /// bound.
    pub fn within(self, bound: u64) -> (within: bool)
        requires
            bound < DOUBLE_INFINITY,
        ensures
            within == (self.magnitude() <= bound),
    {
        if self.bits < DOUBLE_SIGN {
            self.bits <= bound
        } else {
            self.bits - DOUBLE_SIGN <= bound
        }
    }

    /// Whether the number is at least zero and at most one.
    pub fn in_unit(self) -> (within: bool)
        ensures
            within == self.lies_in(Double { bits: 0 }, Double { bits: DOUBLE_ONE }),
    {
        self.bits <= DOUBLE_ONE || self.bits == DOUBLE_SIGN
    }

    /// Whether the number is above zero.
    pub fn positive(self) -> (positive: bool)
        ensures
            positive == self.is_positive(),
    {
        0 < self.bits && self.bits <= DOUBLE_INFINITY
    }

    /// Whether the number is at most zero.
    pub fn at_most_zero(self) -> (below: bool)
        ensures
            below == (!self.is_nan() && self.rank() <= 0),
    {
        self.bits == 0 || (DOUBLE_SIGN <= self.bits && self.bits - DOUBLE_SIGN <= DOUBLE_INFINITY)
    }

    /// Whether the number is negative and its absolute value above that of a
    /// bound whose bits are given without a sign.
    pub fn below_negated(self, bound: u64) -> (below: bool)
        requires
            bound < DOUBLE_INFINITY,
        ensures
            below == (!self.is_nan() && self.rank() < -bound),
    {
        DOUBLE_SIGN < self.bits && bound < self.bits - DOUBLE_SIGN && self.bits - DOUBLE_SIGN
            <= DOUBLE_INFINITY
    }

    /// The number with the other sign.
    pub fn negated(self) -> (negated: Double)
        ensures
            negated == self.opposite(),
            negated.magnitude() == self.magnitude(),
            !self.is_nan() ==> negated.rank() == -self.rank(),
    {
        if self.bits < DOUBLE_SIGN {
            Double { bits: self.bits + DOUBLE_SIGN }
        } else {
            Double { bits: self.bits - DOUBLE_SIGN }
        }
    }

    /// Whether this is no number.
    fn nan(self) -> (nan: bool)
        ensures
            nan == self.is_nan(),
    {
        if self.bits < DOUBLE_SIGN {
            self.bits > DOUBLE_INFINITY
        } else {
            self.bits - DOUBLE_SIGN > DOUBLE_INFINITY
        }
    }

    /// A number that orders as the double does.
    fn ordinal(self) -> (rank: i64)
        ensures
            rank == self.rank(),
    {
        if self.bits < DOUBLE_SIGN {
            self.bits as i64
        } else {
            -((self.bits - DOUBLE_SIGN) as i64)
        }
    }

    /// Whether the number is below another.
    pub fn below(self, other: Double) -> (below: bool)
        ensures
            below == self.precedes(other),
    {
        !self.nan() && !other.nan() && self.ordinal() < other.ordinal()
    }

    /// Whether the number is at most another.
    pub fn at_most(self, other: Double) -> (within: bool)
        ensures
            within == self.reaches_no_further(other),
    {
        !self.nan() && !other.nan() && self.ordinal() <= other.ordinal()
    }

    /// The nearest number from zero to one.
    pub fn clamp_unit(self) -> (clamped: Double)
        ensures
            clamped == self.held_in_unit(),
    {
        if self.below(Double { bits: 0 }) {
            Double { bits: 0 }
        } else if (Double { bits: DOUBLE_ONE }).below(self) {
            Double { bits: DOUBLE_ONE }
        } else {
            self
        }
    }
}

impl Single {
    /// The bits without the sign. Larger bits are a larger absolute value.
    pub open spec fn magnitude(self) -> int {
        if self.bits < SINGLE_SIGN {
            self.bits as int
        } else {
            self.bits - SINGLE_SIGN
        }
    }

    /// Whether this is no number.
    pub open spec fn is_nan(self) -> bool {
        self.magnitude() > SINGLE_INFINITY
    }

    /// A number that orders as the single does, for all singles but NaN.
    pub open spec fn rank(self) -> int {
        if self.bits < SINGLE_SIGN {
            self.magnitude()
        } else {
            -self.magnitude()
        }
    }

    /// Whether this is neither NaN nor below `low` nor above `high`.
    pub open spec fn lies_in(self, low: Single, high: Single) -> bool {
        !self.is_nan() && low.rank() <= self.rank() <= high.rank()
    }

    /// The number, but one where it is above one or NaN.
    pub open spec fn held_to_one(self) -> Single {
        if self.is_nan() || self.rank() > SINGLE_ONE {
            Single { bits: SINGLE_ONE }
        } else {
            self
        }
    }

    /// Zero.
    pub fn zero() -> (zero: Single)
        ensures
            zero == (Single { bits: 0 }),
    {
        Single { bits: 0 }
    }

    /// Whether the number is at least zero and at most one.
    pub fn in_unit(self) -> (within: bool)
        ensures
            within == self.lies_in(Single { bits: 0 }, Single { bits: SINGLE_ONE }),
    {
        self.bits <= SINGLE_ONE || self.bits == SINGLE_SIGN
    }

    /// Whether the number is above a bound whose bits are given without a sign.
    pub fn above(self, bound: u32) -> (above: bool)
        requires
            bound < SINGLE_INFINITY,
        ensures
            above == (!self.is_nan() && self.rank() > bound),
    {
        bound < self.bits && self.bits <= SINGLE_INFINITY
    }

    /// The number, but one where it is above one or NaN.
    pub fn cap_one(self) -> (capped: Single)
        ensures
            capped == self.held_to_one(),
    {
        let nan = if self.bits < SINGLE_SIGN {
            self.bits > SINGLE_INFINITY
        } else {
            self.bits - SINGLE_SIGN > SINGLE_INFINITY
        };
        if nan || self.above(SINGLE_ONE) {
            Single { bits: SINGLE_ONE }
        } else {
            self
        }
    }
}

/// Which bits are no number, and how the others are ordered: positive numbers as their bits
/// are, negative numbers the other way round and below them, infinities at either end, and
/// both zeros alike.
pub proof fn law_doubles_are_ordered(a: Double, b: Double)
    ensures
        a.is_nan() <==> 0x7ff0_0000_0000_0000 < a.bits < 0x8000_0000_0000_0000 || a.bits
            > 0xfff0_0000_0000_0000,
        a.bits < 0x8000_0000_0000_0000 && b.bits < 0x8000_0000_0000_0000 ==> (a.rank() < b.rank()
            <==> a.bits < b.bits),
        a.bits >= 0x8000_0000_0000_0000 && b.bits >= 0x8000_0000_0000_0000 ==> (a.rank()
            < b.rank() <==> a.bits > b.bits),
        a.bits > 0x8000_0000_0000_0000 && b.bits < 0x8000_0000_0000_0000 ==> a.rank() < b.rank(),
        (Double { bits: 0 }).rank() == 0,
        (Double { bits: 0x8000_0000_0000_0000 }).rank() == 0,
        !a.is_nan() && !b.is_nan() ==> (a.precedes(b) <==> a.rank() < b.rank()),
        !a.is_nan() && !b.is_nan() ==> (a.reaches_no_further(b) <==> !b.precedes(a)),
        a.is_nan() || b.is_nan() ==> !a.precedes(b) && !a.reaches_no_further(b),
{
}

/// A number with the other sign is as far from zero on the other side, and with its own sign
/// again it is the number.
pub proof fn law_opposite_numbers(a: Double)
    ensures
        a.opposite().opposite() == a,
        a.opposite() != a,
        a.opposite().rank() == -a.rank(),
        a.opposite().magnitude() == a.magnitude(),
        a.opposite().is_nan() == a.is_nan(),
        a.is_positive() <==> !a.is_nan() && (Double { bits: 0 }).precedes(a),
{
}

/// Holding a number between zero and one leaves a number that is there, and gives the nearer
/// end for one that is not.
pub proof fn law_numbers_are_held_in_unit(a: Double)
    requires
        !a.is_nan(),
    ensures
        0 <= a.rank() <= 0x3ff0_0000_0000_0000 ==> a.held_in_unit() == a,
        a.rank() < 0 ==> a.held_in_unit().bits == 0,
        a.rank() > 0x3ff0_0000_0000_0000 ==> a.held_in_unit().bits == 0x3ff0_0000_0000_0000,
        a.lies_in(Double { bits: 0 }, Double { bits: 0x3ff0_0000_0000_0000 }) <==> a.held_in_unit()
            == a,
{
}

/// The same of numbers in single format.
pub proof fn law_singles_are_ordered(a: Single, b: Single)
    ensures
        a.is_nan() <==> 0x7f80_0000 < a.bits < 0x8000_0000 || a.bits > 0xff80_0000,
        a.bits < 0x8000_0000 && b.bits < 0x8000_0000 ==> (a.rank() < b.rank() <==> a.bits < b.bits),
        a.bits >= 0x8000_0000 && b.bits >= 0x8000_0000 ==> (a.rank() < b.rank() <==> a.bits
            > b.bits),
        a.bits > 0x8000_0000 && b.bits < 0x8000_0000 ==> a.rank() < b.rank(),
        !a.is_nan() && a.rank() <= 0x3f80_0000 ==> a.held_to_one() == a,
        a.is_nan() || a.rank() > 0x3f80_0000 ==> a.held_to_one().bits == 0x3f80_0000,
        a.lies_in(b, b) ==> !a.is_nan() && a.rank() == b.rank(),
{
}

} // verus!
