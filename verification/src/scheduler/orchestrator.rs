//! The scheduler's start: which categories it ticks.

use vstd::prelude::*;

use crate::text::{chars_of, string_of};

verus! {

/// Runs the ticks of the configured categories.
pub struct Scheduler;

impl Scheduler {
    /// The categories a scheduler over several categories ticks, in order;
    /// a scheduler needs at least one.
    pub fn categories_to_run(categories: Vec<String>) -> (r: Result<Vec<String>, String>)
        ensures
            categories.len() == 0 ==> (r matches Err(m) && m@ == "no categories configured for scheduler"@),
            categories.len() > 0 ==> r == Ok::<Vec<String>, String>(categories),
    {
        if categories.len() == 0 {
            return Err(string_of(&chars_of("no categories configured for scheduler")));
        }
        Ok(categories)
    }

    /// Seconds between two ticks.
    pub fn tick_interval_seconds() -> (r: u64)
        ensures
            r == 5,
    {
        5
    }
}

} // verus!
