//! The clock component: ticks at the granularity its format needs.

use vstd::prelude::*;

use crate::config::Icon;
use crate::util::{contains_seq, str_contains};

verus! {

/// Messages for the clock component.
#[derive(Debug)]
pub enum TimeInput {
    PanelOpen(bool),
    Tick,
}

/// Initial settings of the clock component.
#[derive(Debug, Clone)]
pub struct TimeInit {
    pub icon: Icon,
    /// An optional timezone name; the system timezone when absent.
    pub timezone: Option<String>,
    /// The clock's strftime-style format string.
    pub format: String,
}

impl Default for TimeInit {
    /// The default clock: the schedule glyph, local time, a seconds-bearing
    /// format.
    fn default() -> (r: Self)
        ensures
            r.icon matches Icon::Material { id } && id@ == "schedule"@,
            r.timezone is None,
            r.format@ == "%-I:%M<span alpha=\"50%%\">:%S %p</span>"@,
    {
        TimeInit {
            icon: Icon::Material { id: String::from_str("schedule") },
            timezone: None,
            format: String::from_str("%-I:%M<span alpha=\"50%%\">:%S %p</span>"),
        }
    }
}

/// True when the format string renders seconds through any of the
/// seconds escapes.
pub open spec fn shows_seconds(format: Seq<char>) -> bool {
    ||| contains_seq(format, "%S"@)
    ||| contains_seq(format, "%-S"@)
    ||| contains_seq(format, "%_S"@)
    ||| contains_seq(format, "%0S"@)
}

/// How often the clock ticks, in microseconds: every second when the
/// format shows seconds, else every minute.
pub fn interval_duration(format: &str) -> (r: u64)
    ensures
        shows_seconds(format@) ==> r == 1_000_000u64,
        !shows_seconds(format@) ==> r == 60_000_000u64,
{
    if str_contains(format, "%S") || str_contains(format, "%-S") || str_contains(format, "%_S")
        || str_contains(format, "%0S") {
        1_000_000
    } else {
        60_000_000
    }
}

} // verus!
