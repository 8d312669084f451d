use crate::model::UNIT_MAX_HEALTH;
use vstd::prelude::*;

verus! {

/// Health of a unit as the board shows it: full, or the points left.
#[derive(Clone, Copy, Debug, PartialEq, Eq, Structural)]
pub enum Health {
    Full,
    Damaged(u32),
}

impl Health {
    /// Points of health that this stands for.
    pub open spec fn points(self) -> u32 {
        match self {
            Health::Full => UNIT_MAX_HEALTH,
            Health::Damaged(h) => h,
        }
    }

    /// `Full` from the maximum health up, the points left below it.
    pub fn from_value(health: u32) -> (r: Self)
        ensures
            r == (if health >= UNIT_MAX_HEALTH { Health::Full } else { Health::Damaged(health) }),
    {
        if health >= UNIT_MAX_HEALTH {
            Health::Full
        } else {
            Health::Damaged(health)
        }
    }

    /// Points of health that this stands for.
    pub fn value(&self) -> (r: u32)
        ensures
            r == self.points(),
    {
        match self {
            Health::Full => UNIT_MAX_HEALTH,
            Health::Damaged(health) => *health,
        }
    }

    /// The health left after `x` points of damage, never below zero.
    pub fn damage(&self, x: u32) -> (r: Self)
        ensures
            r == Health::Damaged(if x > self.points() { 0 } else { (self.points() - x) as u32 }),
    {
        if x > self.value() {
            Health::Damaged(0)
        } else {
            Health::Damaged(self.value() - x)
        }
    }
}

/// Funds of a seat as the board shows them.
#[derive(Clone, Copy, Debug, PartialEq, Eq, Structural)]
pub struct Funds(pub u32);

impl Funds {
    /// The funds left after paying `amount`, never below zero.
    pub fn deduct(&self, amount: u32) -> (r: Self)
        ensures
            r.0 == (if amount > self.0 { 0 } else { (self.0 - amount) as u32 }),
    {
        if amount > self.0 {
            Funds(0)
        } else {
            Funds(self.0 - amount)
        }
    }
}

} // verus!
