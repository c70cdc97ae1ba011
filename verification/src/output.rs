//! The record every status module emits: one JSON object per line.

use vstd::prelude::*;
use vstd::string::*;
use crate::json::{append_json_int, append_json_string, append_json_string_array, spec_json_int,
    spec_json_string, spec_json_string_array};

verus! {

/// One status line for the bar: the text shown, a tooltip, a list of style
/// classes, and a percentage used for percentage-driven styling.
#[derive(Debug, PartialEq, Eq)]
pub struct Output {
    pub text: String,
    pub tooltip: String,
    pub class: Vec<String>,
    pub percentage: i32,
}

/// The one-line JSON object for a record: the four fields in declaration
/// order, strings escaped, the class list as an array of strings.
pub open spec fn spec_output_json(
    text: Seq<char>,
    tooltip: Seq<char>,
    class: Seq<Seq<char>>,
    percentage: int,
) -> Seq<char> {
    "{\"text\":"@ + spec_json_string(text) + ",\"tooltip\":"@ + spec_json_string(tooltip)
        + ",\"class\":"@ + spec_json_string_array(class) + ",\"percentage\":"@ + spec_json_int(
        percentage,
    ) + "}"@
}

impl Output {
    /// Renders the record as its JSON line.
    pub fn to_json(&self) -> (s: String)
        ensures
            s@ == spec_output_json(
                self.text@,
                self.tooltip@,
                self.class.deep_view(),
                self.percentage as int,
            ),
    {
        let mut s = String::new();
        s.append("{\"text\":");
        append_json_string(&mut s, self.text.as_str());
        s.append(",\"tooltip\":");
        append_json_string(&mut s, self.tooltip.as_str());
        s.append(",\"class\":");
        append_json_string_array(&mut s, &self.class);
        s.append(",\"percentage\":");
        append_json_int(&mut s, self.percentage);
        s.append("}");
        proof {
            assert(s@ =~= spec_output_json(
                self.text@,
                self.tooltip@,
                self.class.deep_view(),
                self.percentage as int,
            ));
        }
        s
    }
}

} // verus!
