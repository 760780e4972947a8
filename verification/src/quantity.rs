//! Measured quantities: binary64 numbers held by their bit pattern, and their
//! order.

use vstd::prelude::*;

use crate::counts::clamped;

verus! {

/// `value` without its last `places` binary places.
pub open spec fn halved(value: nat, places: nat) -> nat
    decreases places,
{
    if places == 0 {
        value
    } else {
        halved(value, (places - 1) as nat) / 2
    }
}

/// `value` with `places` zero binary places behind it.
pub open spec fn doubled(value: nat, places: nat) -> nat
    decreases places,
{
    if places == 0 {
        value
    } else {
        2 * doubled(value, (places - 1) as nat)
    }
}

fn halve(value: u64, places: u64) -> (out: u64)
    requires
        value < 0x20_0000_0000_0000,
    ensures
        out == halved(value as nat, places as nat),
        out <= value,
{
    let mut out: u64 = value;
    let mut done: u64 = 0;
    while done < places
        invariant
            done <= places,
            out <= value,
            out == halved(value as nat, done as nat),
        decreases places - done,
    {
        out = out / 2;
        done = done + 1;
    }
    out
}

fn double(value: u64, places: u64) -> (out: u64)
    requires
        value < 0x20_0000_0000_0000,
        places <= 10,
    ensures
        out == doubled(value as nat, places as nat),
        out < 0x8000_0000_0000_0000,
{
    let mut out: u64 = value;
    let mut done: u64 = 0;
    proof {
        lemma_doubled_bound(value as nat);
    }
    while done < places
        invariant
            done <= places <= 10,
            out == doubled(value as nat, done as nat),
            forall|n: nat| n <= 10 ==> #[trigger] doubled(value as nat, n) < 0x8000_0000_0000_0000,
        decreases places - done,
    {
        assert(doubled(value as nat, (done + 1) as nat) == 2 * out);
        out = out * 2;
        done = done + 1;
    }
    assert(doubled(value as nat, places as nat) < 0x8000_0000_0000_0000);
    out
}

proof fn lemma_doubled_bound(value: nat)
    requires
        value < 0x20_0000_0000_0000,
    ensures
        forall|n: nat| n <= 10 ==> #[trigger] doubled(value, n) < 0x8000_0000_0000_0000,
{
    reveal_with_fuel(doubled, 11);
    assert forall|n: nat| n <= 10 implies #[trigger] doubled(value, n) < 0x8000_0000_0000_0000 by {
        lemma_doubled_grows(value, n, 10);
    }
}

proof fn lemma_doubled_grows(value: nat, low: nat, high: nat)
    requires
        low <= high,
    ensures
        doubled(value, low) <= doubled(value, high),
    decreases high - low,
{
    if low < high {
        lemma_doubled_grows(value, low, (high - 1) as nat);
    }
}

proof fn lemma_doubled_large(value: nat, places: nat)
    requires
        value >= 0x10_0000_0000_0000,
        places >= 11,
    ensures
        doubled(value, places) >= 0x8000_0000_0000_0000,
{
    reveal_with_fuel(doubled, 12);
    lemma_doubled_grows(value, 11, places);
}

/// An IEEE 754 binary64 number, by its bit pattern.
#[derive(Clone, Copy, Debug, PartialEq, Eq, Structural)]
pub struct Quantity {
    pub bits: u64,
}

/// Zero.
pub const ZERO: u64 = 0;

/// The number nearest to one tenth.
pub const TENTH: u64 = 0x3fb9_9999_9999_999a;

/// The number nearest to fifteen hundredths.
pub const FIFTEEN_HUNDREDTHS: u64 = 0x3fc3_3333_3333_3333;

pub const ONE: u64 = 0x3ff0_0000_0000_0000;

pub const TEN: u64 = 0x4024_0000_0000_0000;

pub const TWENTY: u64 = 0x4034_0000_0000_0000;

pub const TWENTY_FIVE: u64 = 0x4039_0000_0000_0000;

pub const SIXTY: u64 = 0x404e_0000_0000_0000;

pub const HUNDRED: u64 = 0x4059_0000_0000_0000;

pub const HUNDRED_AND_ONE: u64 = 0x4059_4000_0000_0000;

impl Quantity {
    /// The pattern without its sign bit.
    pub open spec fn magnitude(self) -> int {
        if self.bits >= 0x8000_0000_0000_0000 {
            self.bits - 0x8000_0000_0000_0000
        } else {
            self.bits as int
        }
    }

    /// Not a number: no order relates it to anything.
    pub open spec fn nan(self) -> bool {
        self.magnitude() > 0x7ff0_0000_0000_0000
    }

    /// The place of a number among all numbers. Both zeros have place 0.
    pub open spec fn rank(self) -> int {
        if self.bits >= 0x8000_0000_0000_0000 {
            -self.magnitude()
        } else {
            self.magnitude()
        }
    }

    /// `self < other` as binary64 numbers compare.
    pub open spec fn below(self, other: Quantity) -> bool {
        !self.nan() && !other.nan() && self.rank() < other.rank()
    }

    /// `self <= other` as binary64 numbers compare.
    pub open spec fn at_most(self, other: Quantity) -> bool {
        !self.nan() && !other.nan() && self.rank() <= other.rank()
    }

    /// `self == other` as binary64 numbers compare.
    pub open spec fn equals(self, other: Quantity) -> bool {
        !self.nan() && !other.nan() && self.rank() == other.rank()
    }

    /// The smaller of two quantities; the other one where one is not a number.
    pub open spec fn smaller(self, other: Quantity) -> Quantity {
        if other.nan() || self.at_most(other) {
            self
        } else {
            other
        }
    }

    /// Neither infinite nor not a number.
    pub open spec fn finite(self) -> bool {
        self.magnitude() < 0x7ff0_0000_0000_0000
    }

    /// The biased exponent.
    pub open spec fn exponent(self) -> int {
        self.magnitude() / 0x10_0000_0000_0000
    }

    /// The significand as an integer: the number is `significand` times two to
    /// the power of the exponent less 1075 (less 1074 where that is zero).
    pub open spec fn significand(self) -> nat {
        if self.exponent() == 0 {
            (self.magnitude() % 0x10_0000_0000_0000) as nat
        } else {
            (self.magnitude() % 0x10_0000_0000_0000 + 0x10_0000_0000_0000) as nat
        }
    }

    /// The whole part of the number without its sign.
    pub open spec fn whole_magnitude(self) -> nat {
        if self.exponent() == 0 {
            0
        } else if self.exponent() < 1075 {
            halved(self.significand(), (1075 - self.exponent()) as nat)
        } else {
            doubled(self.significand(), (self.exponent() - 1075) as nat)
        }
    }

    /// The whole part, in the range of a 64-bit integer; zero for what is not
    /// a number.
    pub open spec fn truncated(self) -> int {
        if self.nan() {
            0
        } else if self.rank() < 0 {
            clamped(-self.whole_magnitude())
        } else {
            clamped(self.whole_magnitude() as int)
        }
    }

    pub fn is_finite(self) -> (yes: bool)
        ensures
            yes == self.finite(),
    {
        if self.bits >= 0x8000_0000_0000_0000 {
            self.bits - 0x8000_0000_0000_0000 < 0x7ff0_0000_0000_0000
        } else {
            self.bits < 0x7ff0_0000_0000_0000
        }
    }

    pub fn truncate(self) -> (out: i64)
        ensures
            out == self.truncated(),
    {
        if self.is_nan() {
            return 0;
        }
        let negative = self.bits >= 0x8000_0000_0000_0000;
        let magnitude: u64 = if negative {
            self.bits - 0x8000_0000_0000_0000
        } else {
            self.bits
        };
        let exponent: u64 = magnitude / 0x10_0000_0000_0000;
        let fraction: u64 = magnitude % 0x10_0000_0000_0000;
        if exponent == 0 {
            return 0;
        }
        let significand: u64 = fraction + 0x10_0000_0000_0000;
        if exponent >= 1086 {
            proof {
                lemma_doubled_large(significand as nat, (exponent - 1075) as nat);
            }
            return if negative {
                i64::MIN
            } else {
                i64::MAX
            };
        }
        let whole: u64 = if exponent < 1075 {
            halve(significand, 1075 - exponent)
        } else {
            double(significand, exponent - 1075)
        };
        if negative {
            -(whole as i64)
        } else {
            whole as i64
        }
    }

    pub fn is_nan(self) -> (yes: bool)
        ensures
            yes == self.nan(),
    {
        if self.bits >= 0x8000_0000_0000_0000 {
            self.bits - 0x8000_0000_0000_0000 > 0x7ff0_0000_0000_0000
        } else {
            self.bits > 0x7ff0_0000_0000_0000
        }
    }

    /// `rank` as a machine integer.
    pub fn place(self) -> (at: i64)
        ensures
            at == self.rank(),
    {
        if self.bits >= 0x8000_0000_0000_0000 {
            let size: i64 = (self.bits - 0x8000_0000_0000_0000) as i64;
            -size
        } else {
            self.bits as i64
        }
    }

    pub fn is_below(self, other: Quantity) -> (yes: bool)
        ensures
            yes == self.below(other),
    {
        !self.is_nan() && !other.is_nan() && self.place() < other.place()
    }

    pub fn is_at_most(self, other: Quantity) -> (yes: bool)
        ensures
            yes == self.at_most(other),
    {
        !self.is_nan() && !other.is_nan() && self.place() <= other.place()
    }

    pub fn is_equal(self, other: Quantity) -> (yes: bool)
        ensures
            yes == self.equals(other),
    {
        !self.is_nan() && !other.is_nan() && self.place() == other.place()
    }

    pub fn min(self, other: Quantity) -> (least: Quantity)
        ensures
            least == self.smaller(other),
    {
        if other.is_nan() || self.is_at_most(other) {
            self
        } else {
            other
        }
    }
}

/// Numbers without a sign are ordered as their bits are, those with a sign the
/// other way round; every negative number but zero lies below every positive
/// one, and both zeros are equal.
pub proof fn law_bits_order_the_numbers(a: Quantity, b: Quantity)
    requires
        !a.nan(),
        !b.nan(),
    ensures
        a.bits < 0x8000_0000_0000_0000 && b.bits < 0x8000_0000_0000_0000 ==> (a.below(b) <==> a.bits
            < b.bits),
        a.bits >= 0x8000_0000_0000_0000 && b.bits >= 0x8000_0000_0000_0000 ==> (a.below(b)
            <==> a.bits > b.bits),
        a.bits > 0x8000_0000_0000_0000 && b.bits < 0x8000_0000_0000_0000 ==> a.below(b)
            && !b.below(a),
        a.bits == 0 && b.bits == 0x8000_0000_0000_0000 ==> a.equals(b) && !a.below(b) && !b.below(
            a,
        ),
        a.at_most(b) <==> a.below(b) || a.equals(b),
        a.below(b) ==> !b.at_most(a),
{
}

/// What is not a number is neither below, nor above, nor equal to anything.
pub proof fn law_no_number_is_ordered(a: Quantity, b: Quantity)
    requires
        a.bits > 0x7ff0_0000_0000_0000 && a.bits < 0x8000_0000_0000_0000,
    ensures
        !a.below(b) && !b.below(a) && !a.at_most(b) && !b.at_most(a) && !a.equals(b) && !b.equals(a),
        a.truncated() == 0,
        !a.finite(),
{
}

} // verus!
