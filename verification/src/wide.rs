//! Sums of amounts. A sum of amounts need not be an amount: it is kept as the
//! number of times it went past the largest amount, and the rest.

use vstd::prelude::*;
use crate::ledger::Balance;
use crate::proposal::Outcome;
use crate::tally::decide;

verus! {

/// The number of amounts there are: one more than the largest.
pub open spec fn amounts() -> nat {
    0x1_0000_0000_0000_0000_0000_0000_0000_0000nat
}

/// A sum of amounts.
#[derive(Clone, Copy, Debug)]
pub struct Sum {
    /// How many times the sum went past the largest amount.
    pub high: u128,
    /// What it came to beyond that.
    pub low: Balance,
}

impl View for Sum {
    type V = nat;

    open spec fn view(&self) -> nat {
        self.high as nat * amounts() + self.low as nat
    }
}

impl Sum {
    /// The empty sum.
    pub fn zero() -> (sum: Sum)
        ensures
            sum@ == 0,
            sum.high == 0,
    {
        Sum { high: 0, low: 0 }
    }

    /// The sum with one more amount.
    pub fn plus(&self, amount: Balance) -> (sum: Sum)
        requires
            self.high < u128::MAX,
        ensures
            sum@ == self@ + amount,
            sum.high <= self.high + 1,
    {
        match self.low.checked_add(amount) {
            Some(low) => Sum { high: self.high, low },
            None => Sum { high: self.high + 1, low: amount - (Balance::MAX - self.low) - 1 },
        }
    }

    /// The sum of two sums.
    pub fn plus_sum(&self, other: &Sum) -> (sum: Sum)
        requires
            self.high + other.high < u128::MAX,
        ensures
            sum@ == self@ + other@,
            sum.high <= self.high + other.high + 1,
    {
        let with_low = self.plus(other.low);
        Sum { high: with_low.high + other.high, low: with_low.low }
    }

    /// The sum as an amount, where it is one.
    pub fn amount(&self) -> (amount: Option<Balance>)
        ensures
            match amount {
                Some(a) => a == self@,
                None => self@ > Balance::MAX,
            },
    {
        if self.high == 0 {
            Some(self.low)
        } else {
            None
        }
    }

    /// Whether this sum is strictly more than the other.
    pub fn exceeds(&self, other: &Sum) -> (more: bool)
        ensures
            more == (self@ > other@),
    {
        self.high > other.high || (self.high == other.high && self.low > other.low)
    }
}

/// The outcome that two totals decide.
pub fn resolve(total_for: &Sum, total_against: &Sum) -> (outcome: Outcome)
    ensures
        outcome == decide(total_for@, total_against@),
{
    if total_for.exceeds(total_against) {
        Outcome::InFavor
    } else if total_against.exceeds(total_for) {
        Outcome::Against
    } else {
        Outcome::Indecision
    }
}

} // verus!
