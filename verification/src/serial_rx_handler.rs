use vstd::prelude::*;

use crate::time_tracker::{LocalTime, TimeTracker};

verus! {

/// Processes one received line for display: the line passes through
/// unchanged (timestamp augmentation is tracked but not applied).
pub fn process_line(
    line: &str,
    time_tracker: &mut TimeTracker,
    line_received_time: LocalTime,
) -> (r: String)
    ensures
        *final(time_tracker) == *old(time_tracker),
        r@ == line@,
{
    line.to_owned()
}

} // verus!
