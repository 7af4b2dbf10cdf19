//! The fuel budget of one execution context.

use vstd::prelude::*;

verus! {

/// The budget ran out before the requested amount could be paid.
///
/// This is not a trap: the meter is left empty and can be refilled.
#[derive(Debug, Clone, Copy, PartialEq, Eq, Structural)]
pub struct FuelExhausted;

/// A counter of remaining fuel. It only goes down, except through `set_fuel`.
#[derive(Debug, Clone, Copy)]
pub struct FuelMeter {
    remaining: u64,
}

impl View for FuelMeter {
    type V = u64;

    closed spec fn view(&self) -> u64 {
        self.remaining
    }
}

/// What is left of a budget of `budget` units after `amount` units are asked
/// for: the difference, or nothing when the budget does not cover the amount.
pub open spec fn fuel_after(budget: u64, amount: u64) -> u64 {
    if amount <= budget {
        (budget - amount) as u64
    } else {
        0
    }
}

impl FuelMeter {
    /// A meter that holds `amount` units.
    pub fn new(amount: u64) -> (meter: Self)
        ensures
            meter@ == amount,
    {
        FuelMeter { remaining: amount }
    }

    /// The units that are left.
    pub fn remaining(&self) -> (left: u64)
        ensures
            left == self@,
    {
        self.remaining
    }

    /// Replaces the budget, whatever was left of the old one.
    pub fn set_fuel(&mut self, amount: u64)
        ensures
            final(self)@ == amount,
    {
        self.remaining = amount;
    }

    /// Pays `amount` units.
    ///
    /// Succeeds with what is left exactly when the budget covers the amount.
    /// Otherwise the meter is drained and the call reports exhaustion.
    pub fn consume(&mut self, amount: u64) -> (outcome: Result<u64, FuelExhausted>)
        ensures
            final(self)@ == fuel_after(old(self)@, amount),
            final(self)@ <= old(self)@,
            amount <= old(self)@ ==> outcome == Ok::<u64, FuelExhausted>(final(self)@),
            amount > old(self)@ ==> outcome == Err::<u64, FuelExhausted>(FuelExhausted),
    {
        if amount <= self.remaining {
            self.remaining = self.remaining - amount;
            Ok(self.remaining)
        } else {
            self.remaining = 0;
            Err(FuelExhausted)
        }
    }
}

} // verus!
