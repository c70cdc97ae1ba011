//! The status line for the notification daemon.
//!
//! The record shows how many notifications are waiting and whether
//! do-not-disturb is on.  The count shown in the tooltip is formatted for the
//! user's locale; that formatting is the binary's, handed in as text.

use vstd::prelude::*;
use vstd::string::*;
use crate::output::Output;
use crate::text::{spec_decimal, u64_to_string};

verus! {

/// The record for a notification count and a do-not-disturb flag: the style
/// classes name the state, an empty count shows nothing, a positive one its
/// number, with the locale-formatted count in the tooltip.
pub fn output(class: &str, formatted_count: &str, count: u32, dnd: bool) -> (o: Output)
    ensures
        ({
            let classes = class@ + " "@ + (if dnd {
                "dnd"@
            } else {
                "disturb"@
            });
            if count == 0 {
                o.text@ == Seq::<char>::empty() && o.tooltip@ == "No notifications"@
                    && o.class.deep_view() == seq![classes + " empty"@] && o.percentage == 0
            } else {
                o.text@ == spec_decimal(count as int) && o.tooltip@ == formatted_count@
                    + " notification"@ + (if count != 1 {
                    "s"@
                } else {
                    Seq::<char>::empty()
                }) && o.class.deep_view() == seq![classes + " has"@] && o.percentage == 100
            }
        }),
{
    proof {
        reveal_strlit(" ");
        reveal_strlit("dnd");
        reveal_strlit("disturb");
        reveal_strlit(" empty");
        reveal_strlit(" has");
        reveal_strlit(" notification");
        reveal_strlit("s");
    }
    let mut classes = class.to_owned();
    classes.append(" ");
    if dnd {
        classes.append("dnd");
    } else {
        classes.append("disturb");
    }
    if count == 0 {
        classes.append(" empty");
        let mut class_list: Vec<String> = Vec::new();
        class_list.push(classes);
        let o = Output {
            text: String::new(),
            tooltip: "No notifications".to_owned(),
            class: class_list,
            percentage: 0,
        };
        proof {
            assert(o.class.deep_view() =~= seq![
                class@ + " "@ + (if dnd {
                    "dnd"@
                } else {
                    "disturb"@
                }) + " empty"@,
            ]);
        }
        o
    } else {
        classes.append(" has");
        let mut class_list: Vec<String> = Vec::new();
        class_list.push(classes);
        let mut tooltip = formatted_count.to_owned();
        tooltip.append(" notification");
        if count != 1 {
            tooltip.append("s");
        }
        let o = Output {
            text: u64_to_string(count as u64),
            tooltip,
            class: class_list,
            percentage: 100,
        };
        proof {
            assert(o.class.deep_view() =~= seq![
                class@ + " "@ + (if dnd {
                    "dnd"@
                } else {
                    "disturb"@
                }) + " has"@,
            ]);
        }
        o
    }
}

} // verus!
