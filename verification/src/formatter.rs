//! From a presence result to a display record.

use vstd::prelude::*;
use vstd::string::*;
use crate::output::Output;

verus! {

/// Maps the boolean presence result to the record the bar displays.  The two
/// icon strings are configured once at startup.
pub struct Formatter {
    pub found: String,
    pub not_found: String,
}

impl Formatter {
    /// Builds a formatter from the two configured icons.
    pub fn new(found: String, not_found: String) -> (f: Formatter)
        ensures
            f.found@ == found@,
            f.not_found@ == not_found@,
    {
        Formatter { found, not_found }
    }

    /// The display record for a presence result: the matching icon, a fixed
    /// tooltip, one style class, and a percentage of all or nothing.
    pub fn format(&self, found: bool) -> (o: Output)
        ensures
            found ==> o.text@ == self.found@ && o.tooltip@ == "Camera connected"@
                && o.class.deep_view() == seq!["found"@] && o.percentage == 100,
            !found ==> o.text@ == self.not_found@ && o.tooltip@ == "Camera not connected"@
                && o.class.deep_view() == seq!["not-found"@] && o.percentage == 0,
    {
        if found {
            let mut class: Vec<String> = Vec::new();
            class.push("found".to_owned());
            let o = Output {
                text: self.found.clone(),
                tooltip: "Camera connected".to_owned(),
                class,
                percentage: 100,
            };
            proof {
                assert(o.class.deep_view() =~= seq!["found"@]);
            }
            o
        } else {
            let mut class: Vec<String> = Vec::new();
            class.push("not-found".to_owned());
            let o = Output {
                text: self.not_found.clone(),
                tooltip: "Camera not connected".to_owned(),
                class,
                percentage: 0,
            };
            proof {
                assert(o.class.deep_view() =~= seq!["not-found"@]);
            }
            o
        }
    }
}

} // verus!
