use vstd::prelude::*;
use crate::power::Power;
use crate::province::Province;

verus! {

/// Ownership of a province by a power.
#[derive(Debug, Clone, Copy, PartialEq, Eq, Structural)]
pub struct Territory {
    pub power: Power,
    pub province: Province,
}

impl Territory {
    /// `power` owns `province`.
    pub fn new(power: Power, province: Province) -> (r: Territory)
        ensures
            r.power == power,
            r.province == province,
    {
        Territory { power, province }
    }

    /// The owner.
    pub fn power(&self) -> (r: &Power)
        ensures
            *r == self.power,
    {
        &self.power
    }

    /// The owned province.
    pub fn province(&self) -> (r: &Province)
        ensures
            *r == self.province,
    {
        &self.province
    }
}

} // verus!
