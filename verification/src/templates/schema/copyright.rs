//! The years of the copyright notice.

use crate::number::{decimal, decimal_of};
use vstd::prelude::*;

verus! {

/// The years of the copyright notice: from `start` to `end`.
#[derive(Clone, Debug)]
pub struct Copyright {
    pub start: String,
    pub end: String,
}

impl Copyright {
    /// A copyright from `start` to the year `year`, which the caller reads
    /// from the clock.
    pub fn new(start: String, year: i32) -> (copyright: Self)
        ensures
            copyright.start@ == start@,
            copyright.end@ == decimal_of(year as int),
    {
        Copyright { start, end: decimal(year) }
    }
}

} // verus!
