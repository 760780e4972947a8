//! Formulas: what is computed from quantities.

use vstd::prelude::*;

use crate::arithmetic::NOT_A_NUMBER;
use crate::quantity::{HUNDRED, Quantity, ZERO};

verus! {

/// What is computed from quantities, in binary64 arithmetic.
#[derive(Debug)]
pub enum Formula {
    Given(Quantity),
    /// The number with these binary32 bits.
    Single(u32),
    Plus(Box<Formula>, Box<Formula>),
    Minus(Box<Formula>, Box<Formula>),
    Times(Box<Formula>, Box<Formula>),
    Over(Box<Formula>, Box<Formula>),
    /// The larger of two numbers.
    Larger(Box<Formula>, Box<Formula>),
    /// The smaller of two numbers.
    Smaller(Box<Formula>, Box<Formula>),
    /// The number, held between zero and one hundred.
    Percentage(Box<Formula>),
    /// Ten to the power of a number.
    PowerOfTen(Quantity),
}

impl Formula {
    pub open spec fn of(bits: u64) -> Formula {
        Formula::Given(Quantity { bits })
    }

    /// What is left of one hundred percent.
    pub open spec fn rest_of_hundred(used: Formula) -> Formula {
        Formula::Percentage(
            Box::new(Formula::Minus(Box::new(Formula::of(HUNDRED)), Box::new(used))),
        )
    }

    /// The difference where it is positive, else zero.
    pub open spec fn left(whole: Formula, used: Formula) -> Formula {
        Formula::Larger(
            Box::new(Formula::Minus(Box::new(whole), Box::new(used))),
            Box::new(Formula::of(ZERO)),
        )
    }

    /// The number where it is positive, else zero.
    pub open spec fn not_below_zero(value: Formula) -> Formula {
        Formula::Larger(Box::new(value), Box::new(Formula::of(ZERO)))
    }

    /// A part in hundredths of the whole.
    pub open spec fn hundredths(part: Formula, whole: Formula) -> Formula {
        Formula::Times(
            Box::new(Formula::Over(Box::new(part), Box::new(whole))),
            Box::new(Formula::of(HUNDRED)),
        )
    }

    /// A part as a percentage of the whole.
    pub open spec fn share(part: Formula, whole: Formula) -> Formula {
        Formula::Percentage(Box::new(Formula::hundredths(part, whole)))
    }
}

pub fn given(value: Quantity) -> (out: Formula)
    ensures
        out == Formula::Given(value),
{
    Formula::Given(value)
}

pub fn constant(bits: u64) -> (out: Formula)
    ensures
        out == Formula::of(bits),
{
    Formula::Given(Quantity { bits })
}

pub fn rest_of_hundred(used: Formula) -> (out: Formula)
    ensures
        out == Formula::rest_of_hundred(used),
{
    Formula::Percentage(Box::new(Formula::Minus(Box::new(constant(HUNDRED)), Box::new(used))))
}

pub fn left_of(whole: Formula, used: Formula) -> (out: Formula)
    ensures
        out == Formula::left(whole, used),
{
    Formula::Larger(
        Box::new(Formula::Minus(Box::new(whole), Box::new(used))),
        Box::new(constant(ZERO)),
    )
}

pub fn not_below_zero(value: Formula) -> (out: Formula)
    ensures
        out == Formula::not_below_zero(value),
{
    Formula::Larger(Box::new(value), Box::new(constant(ZERO)))
}

pub fn hundredths(part: Formula, whole: Formula) -> (out: Formula)
    ensures
        out == Formula::hundredths(part, whole),
{
    Formula::Times(
        Box::new(Formula::Over(Box::new(part), Box::new(whole))),
        Box::new(constant(HUNDRED)),
    )
}

pub fn share_of(part: Formula, whole: Formula) -> (out: Formula)
    ensures
        out == Formula::share(part, whole),
{
    Formula::Percentage(Box::new(hundredths(part, whole)))
}

impl Clone for Formula {
    fn clone(&self) -> (out: Formula)
        ensures
            out == *self,
        decreases self,
    {
        match self {
            Formula::Given(value) => Formula::Given(*value),
            Formula::Single(bits) => Formula::Single(*bits),
            Formula::Plus(a, b) => Formula::Plus(Box::new((**a).clone()), Box::new((**b).clone())),
            Formula::Minus(a, b) => Formula::Minus(
                Box::new((**a).clone()),
                Box::new((**b).clone()),
            ),
            Formula::Times(a, b) => Formula::Times(
                Box::new((**a).clone()),
                Box::new((**b).clone()),
            ),
            Formula::Over(a, b) => Formula::Over(Box::new((**a).clone()), Box::new((**b).clone())),
            Formula::Larger(a, b) => Formula::Larger(
                Box::new((**a).clone()),
                Box::new((**b).clone()),
            ),
            Formula::Smaller(a, b) => Formula::Smaller(
                Box::new((**a).clone()),
                Box::new((**b).clone()),
            ),
            Formula::Percentage(a) => Formula::Percentage(Box::new((**a).clone())),
            Formula::PowerOfTen(exponent) => Formula::PowerOfTen(*exponent),
        }
    }
}

/// Ten to the power of a number, as it was worked out.
#[derive(Clone, Copy, Debug, PartialEq, Eq, Structural)]
pub struct Power {
    pub exponent: Quantity,
    pub value: Quantity,
}

/// The power that was worked out for an exponent; not a number where none was.
pub open spec fn power_of(powers: Seq<Power>, exponent: Quantity) -> Quantity
    decreases powers.len(),
{
    if powers.len() == 0 {
        Quantity { bits: NOT_A_NUMBER }
    } else if powers.last().exponent == exponent {
        powers.last().value
    } else {
        power_of(powers.drop_last(), exponent)
    }
}

fn find_power(powers: &Vec<Power>, exponent: Quantity) -> (out: Quantity)
    ensures
        out == power_of(powers@, exponent),
{
    let mut left: usize = powers.len();
    assert(powers@.take(left as int) =~= powers@);
    while left > 0
        invariant
            left <= powers@.len(),
            power_of(powers@, exponent) == power_of(powers@.take(left as int), exponent),
        decreases left,
    {
        assert(powers@.take(left as int).drop_last() =~= powers@.take(left - 1));
        assert(powers@.take(left as int).last() == powers@[left - 1]);
        if powers[left - 1].exponent == exponent {
            return powers[left - 1].value;
        }
        left = left - 1;
    }
    Quantity { bits: NOT_A_NUMBER }
}

impl Formula {
    /// What the formula comes to, with the powers of ten worked out before.
    pub open spec fn value(self, powers: Seq<Power>) -> Quantity
        decreases self,
    {
        match self {
            Formula::Given(value) => value,
            Formula::Single(bits) => Quantity::of_single(bits),
            Formula::Plus(a, b) => a.value(powers).sum(b.value(powers)),
            Formula::Minus(a, b) => a.value(powers).difference(b.value(powers)),
            Formula::Times(a, b) => a.value(powers).product(b.value(powers)),
            Formula::Over(a, b) => a.value(powers).quotient(b.value(powers)),
            Formula::Larger(a, b) => a.value(powers).larger(b.value(powers)),
            Formula::Smaller(a, b) => a.value(powers).smaller(b.value(powers)),
            Formula::Percentage(a) => a.value(powers).as_percentage(),
            Formula::PowerOfTen(exponent) => power_of(powers, exponent),
        }
    }

    pub fn evaluate(&self, powers: &Vec<Power>) -> (out: Quantity)
        ensures
            out == self.value(powers@),
        decreases self,
    {
        match self {
            Formula::Given(value) => *value,
            Formula::Single(bits) => Quantity::from_single(*bits),
            Formula::Plus(a, b) => a.evaluate(powers).plus(b.evaluate(powers)),
            Formula::Minus(a, b) => a.evaluate(powers).minus(b.evaluate(powers)),
            Formula::Times(a, b) => a.evaluate(powers).times(b.evaluate(powers)),
            Formula::Over(a, b) => a.evaluate(powers).over(b.evaluate(powers)),
            Formula::Larger(a, b) => a.evaluate(powers).max(b.evaluate(powers)),
            Formula::Smaller(a, b) => a.evaluate(powers).min(b.evaluate(powers)),
            Formula::Percentage(a) => a.evaluate(powers).percentage(),
            Formula::PowerOfTen(exponent) => find_power(powers, *exponent),
        }
    }

    /// The exponents of the powers of ten that the formula needs, in order.
    pub open spec fn exponents(self) -> Seq<Quantity>
        decreases self,
    {
        match self {
            Formula::Given(_) | Formula::Single(_) => Seq::empty(),
            Formula::Plus(a, b) => a.exponents() + b.exponents(),
            Formula::Minus(a, b) => a.exponents() + b.exponents(),
            Formula::Times(a, b) => a.exponents() + b.exponents(),
            Formula::Over(a, b) => a.exponents() + b.exponents(),
            Formula::Larger(a, b) => a.exponents() + b.exponents(),
            Formula::Smaller(a, b) => a.exponents() + b.exponents(),
            Formula::Percentage(a) => a.exponents(),
            Formula::PowerOfTen(exponent) => seq![exponent],
        }
    }

    /// Appends the exponents of the powers of ten that the formula needs.
    pub fn list_exponents(&self, out: &mut Vec<Quantity>)
        ensures
            final(out)@ == old(out)@ + self.exponents(),
        decreases self,
    {
        match self {
            Formula::Given(_) => {},
            Formula::Single(_) => {},
            Formula::Plus(a, b) => {
                a.list_exponents(out);
                b.list_exponents(out);
            },
            Formula::Minus(a, b) => {
                a.list_exponents(out);
                b.list_exponents(out);
            },
            Formula::Times(a, b) => {
                a.list_exponents(out);
                b.list_exponents(out);
            },
            Formula::Over(a, b) => {
                a.list_exponents(out);
                b.list_exponents(out);
            },
            Formula::Larger(a, b) => {
                a.list_exponents(out);
                b.list_exponents(out);
            },
            Formula::Smaller(a, b) => {
                a.list_exponents(out);
                b.list_exponents(out);
            },
            Formula::Percentage(a) => {
                a.list_exponents(out);
            },
            Formula::PowerOfTen(exponent) => {
                out.push(*exponent);
            },
        }
    }
}

/// What is left of one hundred percent is a percentage, whatever was used.
pub proof fn law_rest_of_hundred_is_a_percentage(used: Formula, powers: Seq<Power>)
    ensures
        ({
            let rest = Formula::rest_of_hundred(used).value(powers);
            rest.nan() || ((Quantity { bits: ZERO }).at_most(rest) && rest.at_most(
                Quantity { bits: HUNDRED },
            ))
        }),
{
    let spent = Formula::Minus(Box::new(Formula::of(HUNDRED)), Box::new(used));
    crate::arithmetic::law_percentages_are_bounded(spent.value(powers));
}

} // verus!
