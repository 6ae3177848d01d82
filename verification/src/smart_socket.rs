//! A plain socket for C callers: created off, switched on and off, and
//! drawing its rated power only while on.
use vstd::prelude::*;
use crate::reading::{Reading, zero_text};

verus! {

/// A socket kept in memory, off when created.
#[derive(Debug)]
pub struct SmartSocket {
    is_on: bool,
    power: Reading,
}

impl SmartSocket {
    /// Whether the socket is on.
    pub closed spec fn switched_on(&self) -> bool {
        self.is_on
    }

    /// What the socket draws while on.
    pub closed spec fn rated_power(&self) -> Reading {
        self.power
    }

    /// A socket that is off and draws `power` while on.
    pub fn new(power: Reading) -> (r: SmartSocket)
        ensures
            !r.switched_on(),
            r.rated_power() == power,
    {
        SmartSocket { is_on: false, power }
    }

    pub fn turn_on(&mut self)
        ensures
            final(self).switched_on(),
            final(self).rated_power() == old(self).rated_power(),
    {
        self.is_on = true;
    }

    pub fn turn_off(&mut self)
        ensures
            !final(self).switched_on(),
            final(self).rated_power() == old(self).rated_power(),
    {
        self.is_on = false;
    }

    pub fn is_on(&self) -> (r: bool)
        ensures
            r == self.switched_on(),
    {
        self.is_on
    }

    /// What the socket draws now: its rated power while on, zero while off.
    pub fn power(&self) -> (r: Reading)
        ensures
            self.switched_on() ==> r == self.rated_power(),
            !self.switched_on() ==> r.bit_pattern() == 0 && r.shown() == zero_text(),
    {
        if self.is_on {
            self.power.duplicate()
        } else {
            Reading::zero()
        }
    }
}

} // verus!
