//! The stateless presence check.
//!
//! On every update the attached devices under one subsystem with one driver
//! are enumerated afresh — no inventory is kept, nothing is diffed against a
//! previous result.  The enumeration itself is the platform's; the binary
//! runs it and hands in how many devices matched, or the error when the
//! enumeration could not be constructed or scanned.

use vstd::prelude::*;
use crate::pipeline::Error;

verus! {

/// The immutable filter a checker applies on every invocation: devices under
/// this subsystem whose driver property equals this driver.
pub struct DeviceFilter {
    pub subsystem: String,
    pub driver: String,
}

/// Recomputes presence from scratch on each call.
pub struct Checker {
    filter: DeviceFilter,
}

impl Checker {
    /// The filter this checker was built with.
    pub closed spec fn spec_filter(&self) -> &DeviceFilter {
        &self.filter
    }

    /// A checker for one subsystem/driver pair, fixed at startup.
    pub fn new(subsystem: &String, driver: &String) -> (r: Result<Checker, Error>)
        ensures
            r is Ok,
            r->Ok_0.spec_filter().subsystem@ == subsystem@,
            r->Ok_0.spec_filter().driver@ == driver@,
    {
        Ok(
            Checker {
                filter: DeviceFilter { subsystem: subsystem.clone(), driver: driver.clone() },
            },
        )
    }

    /// The subsystem the enumeration must be scoped to.
    pub fn subsystem(&self) -> (s: &String)
        ensures
            s@ == self.spec_filter().subsystem@,
    {
        &self.filter.subsystem
    }

    /// The driver property the enumeration must match.
    pub fn driver(&self) -> (s: &String)
        ensures
            s@ == self.spec_filter().driver@,
    {
        &self.filter.driver
    }

    /// Presence from the outcome of one fresh filtered enumeration: `false`
    /// exactly when it matched nothing, `true` exactly when it matched at
    /// least one device, and a failure of the enumeration mechanism itself —
    /// distinct from zero matches — is handed back unchanged.
    pub fn has_devices(&self, scan: Result<usize, Error>) -> (r: Result<bool, Error>)
        ensures
            match scan {
                Ok(matched) => r == Result::<bool, Error>::Ok(matched > 0),
                Err(e) => r == Result::<bool, Error>::Err(e),
            },
    {
        match scan {
            Ok(matched) => Ok(matched > 0),
            Err(e) => Err(e),
        }
    }
}

} // verus!
