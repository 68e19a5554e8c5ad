//! The local wall-clock time, read through `chrono`, as plain fields.

use vstd::prelude::*;
use chrono::{Datelike, Timelike};

verus! {

/// A local date and time of day.
#[derive(Clone, Copy, Debug, PartialEq, Eq, Structural)]
pub struct LocalTime {
    pub year: i32,
    /// 1 to 12.
    pub month: u32,
    /// 1 to 31.
    pub day: u32,
    /// 0 to 23.
    pub hour: u32,
    /// 0 to 59.
    pub minute: u32,
    /// 0 to 59.
    pub second: u32,
}

impl LocalTime {
    /// The fields lie in the ranges of a calendar date and a time of day,
    /// the year in the range that `chrono` represents.
    pub open spec fn wf(self) -> bool {
        &&& -262143 <= self.year <= 262142
        &&& 1 <= self.month <= 12
        &&& 1 <= self.day <= 31
        &&& self.hour < 24
        &&& self.minute < 60
        &&& self.second < 60
    }
}

/// The current local time, from `chrono::Local::now()` read through
/// `Datelike::{year, month, day}` and `Timelike::{hour, minute, second}`.
/// What time it is depends on the clock; only the fields' ranges, which
/// `chrono` documents, are stated.
#[verifier::external_body]
pub(crate) fn local_now() -> (t: LocalTime)
    ensures
        t.wf(),
{
    let now = chrono::Local::now();
    LocalTime {
        year: now.year(),
        month: now.month(),
        day: now.day(),
        hour: now.hour(),
        minute: now.minute(),
        second: now.second(),
    }
}

/// The current local time.
pub fn now() -> (t: LocalTime)
    ensures
        t.wf(),
{
    local_now()
}

} // verus!
