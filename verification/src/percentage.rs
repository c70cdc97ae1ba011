//! A percentage as the bar understands it.

use vstd::prelude::*;
use vstd::string::*;
use crate::text::{spec_decimal, u64_to_string};

verus! {

/// A percentage, stored as the whole number the bar is given.
#[derive(Debug, Clone, Copy, Eq, Ord, PartialOrd, PartialEq, Structural)]
pub struct Percentage(u8);

impl Percentage {
    /// The stored value.
    pub closed spec fn spec_as_u8(&self) -> u8 {
        self.0
    }

    /// Wraps an already computed whole-number percentage.
    pub fn from_u8(value: u8) -> (p: Percentage)
        ensures
            p.spec_as_u8() == value,
    {
        Percentage(value)
    }

    /// The value as a plain integer.
    pub fn as_u8(&self) -> (v: u8)
        ensures
            v == self.spec_as_u8(),
    {
        self.0
    }

    /// The value with a percent sign, as it appears in tooltips.
    pub fn to_string(&self) -> (s: String)
        ensures
            s@ == spec_decimal(self.spec_as_u8() as int) + "%"@,
    {
        let mut s = u64_to_string(self.0 as u64);
        s.append("%");
        s
    }
}

impl Default for Percentage {
    /// Zero percent.
    fn default() -> (p: Percentage)
        ensures
            p.spec_as_u8() == 0,
    {
        Percentage(0)
    }
}

} // verus!
