//! The eight time scales, their total order, and the unit alias table.

use vstd::prelude::*;
use crate::chars::is_alpha_char;

verus! {

/// The time scale of a duration component.
///
/// The variants are declared finest to coarsest; [`scale_rank`] turns that
/// order into numbers that sorting and comparison logic consume.
#[derive(Debug, Clone, Copy, PartialEq, Eq, Structural)]
pub enum TimeScale {
    /// Milliseconds, 1/1000 of a second
    Milliseconds,
    /// Seconds
    Seconds,
    /// Minutes, 60 seconds each
    Minutes,
    /// Hours, 3600 seconds each
    Hours,
    /// Days, assumed to be 24 hours long
    Days,
    /// Weeks, assumed to be 7 days long
    Weeks,
    /// Months, assumed to be 30 days long
    Months,
    /// Years, assumed to be 365 days long
    Years,
}

/// Position of a scale in the fixed ascending-granularity total order:
/// Milliseconds < Seconds < Minutes < Hours < Days < Weeks < Months < Years.
pub open spec fn scale_rank(s: TimeScale) -> int {
    match s {
        TimeScale::Milliseconds => 0,
        TimeScale::Seconds => 1,
        TimeScale::Minutes => 2,
        TimeScale::Hours => 3,
        TimeScale::Days => 4,
        TimeScale::Weeks => 5,
        TimeScale::Months => 6,
        TimeScale::Years => 7,
    }
}

/// How many milliseconds one unit of the scale stands for.  Months and years
/// use the fixed 30-day and 365-day approximations.
pub open spec fn scale_factor_ms(s: TimeScale) -> nat {
    match s {
        TimeScale::Milliseconds => 1,
        TimeScale::Seconds => 1000,
        TimeScale::Minutes => 60_000,
        TimeScale::Hours => 3_600_000,
        TimeScale::Days => 86_400_000,
        TimeScale::Weeks => 604_800_000,
        TimeScale::Months => 2_592_000_000,
        TimeScale::Years => 31_536_000_000,
    }
}

/// The short rendering of a scale, used by the compact formatter output.
pub open spec fn short_alias(s: TimeScale) -> Seq<char> {
    match s {
        TimeScale::Milliseconds => "ms"@,
        TimeScale::Seconds => "s"@,
        TimeScale::Minutes => "m"@,
        TimeScale::Hours => "h"@,
        TimeScale::Days => "d"@,
        TimeScale::Weeks => "w"@,
        TimeScale::Months => "mo"@,
        TimeScale::Years => "y"@,
    }
}

/// The singular long spelling of a scale.
pub open spec fn long_singular(s: TimeScale) -> Seq<char> {
    match s {
        TimeScale::Milliseconds => "millisecond"@,
        TimeScale::Seconds => "second"@,
        TimeScale::Minutes => "minute"@,
        TimeScale::Hours => "hour"@,
        TimeScale::Days => "day"@,
        TimeScale::Weeks => "week"@,
        TimeScale::Months => "month"@,
        TimeScale::Years => "year"@,
    }
}

/// The plural long spelling of a scale.
pub open spec fn long_plural(s: TimeScale) -> Seq<char> {
    match s {
        TimeScale::Milliseconds => "milliseconds"@,
        TimeScale::Seconds => "seconds"@,
        TimeScale::Minutes => "minutes"@,
        TimeScale::Hours => "hours"@,
        TimeScale::Days => "days"@,
        TimeScale::Weeks => "weeks"@,
        TimeScale::Months => "months"@,
        TimeScale::Years => "years"@,
    }
}

impl TimeScale {
    /// The short form of the scale: `ms`, `s`, `m`, `h`, `d`, `w`, `mo`, `y`.
    pub fn short_form(&self) -> (r: &'static str)
        ensures
            r@ == short_alias(*self),
    {
        match self {
            TimeScale::Milliseconds => "ms",
            TimeScale::Seconds => "s",
            TimeScale::Minutes => "m",
            TimeScale::Hours => "h",
            TimeScale::Days => "d",
            TimeScale::Weeks => "w",
            TimeScale::Months => "mo",
            TimeScale::Years => "y",
        }
    }

    /// The long form of the scale, plural exactly when `amount` is above one
    /// (an amount of zero renders as singular).
    pub fn long_form(&self, amount: u16) -> (r: &'static str)
        ensures
            r@ == if amount > 1 {
                long_plural(*self)
            } else {
                long_singular(*self)
            },
    {
        if amount > 1 {
            self.long_form_plural()
        } else {
            match self {
                TimeScale::Milliseconds => "millisecond",
                TimeScale::Seconds => "second",
                TimeScale::Minutes => "minute",
                TimeScale::Hours => "hour",
                TimeScale::Days => "day",
                TimeScale::Weeks => "week",
                TimeScale::Months => "month",
                TimeScale::Years => "year",
            }
        }
    }

    /// The long form of the scale, always plural.
    pub fn long_form_plural(&self) -> (r: &'static str)
        ensures
            r@ == long_plural(*self),
    {
        match self {
            TimeScale::Milliseconds => "milliseconds",
            TimeScale::Seconds => "seconds",
            TimeScale::Minutes => "minutes",
            TimeScale::Hours => "hours",
            TimeScale::Days => "days",
            TimeScale::Weeks => "weeks",
            TimeScale::Months => "months",
            TimeScale::Years => "years",
        }
    }
}

/// The alias table rows for years: English `y`, `year`, `years` and
/// Indonesian `t`, `thn`, `tahun`.
pub open spec fn is_years_alias(t: Seq<char>) -> bool {
    ||| t == "y"@
    ||| t == "year"@
    ||| t == "years"@
    ||| t == "t"@
    ||| t == "thn"@
    ||| t == "tahun"@
}

/// The alias table rows for months: `M` (capital only, lower-case `m` is
/// minutes), `mo`, `month`, `months` and Indonesian `b`, `bln`, `bulan`.
pub open spec fn is_months_alias(t: Seq<char>) -> bool {
    ||| t == "M"@
    ||| t == "mo"@
    ||| t == "month"@
    ||| t == "months"@
    ||| t == "b"@
    ||| t == "bln"@
    ||| t == "bulan"@
}

/// The alias table rows for weeks: `w`, `wk`, `week`, `weeks` and
/// Indonesian `mng`, `minggu`.
pub open spec fn is_weeks_alias(t: Seq<char>) -> bool {
    ||| t == "w"@
    ||| t == "wk"@
    ||| t == "week"@
    ||| t == "weeks"@
    ||| t == "mng"@
    ||| t == "minggu"@
}

/// The alias table rows for days: `d`, `day`, `days` and Indonesian `hari`.
pub open spec fn is_days_alias(t: Seq<char>) -> bool {
    ||| t == "d"@
    ||| t == "day"@
    ||| t == "days"@
    ||| t == "hari"@
}

/// The alias table rows for hours: `h`, `hr`, `hrs`, `hour`, `hours` and
/// Indonesian `j`, `jam`.
pub open spec fn is_hours_alias(t: Seq<char>) -> bool {
    ||| t == "h"@
    ||| t == "hr"@
    ||| t == "hrs"@
    ||| t == "hour"@
    ||| t == "hours"@
    ||| t == "j"@
    ||| t == "jam"@
}

/// The alias table rows for minutes: `m`, `min`, `mins`, `minute`, `minutes`
/// and Indonesian `mnt`, `menit`.
pub open spec fn is_minutes_alias(t: Seq<char>) -> bool {
    ||| t == "m"@
    ||| t == "min"@
    ||| t == "mins"@
    ||| t == "minute"@
    ||| t == "minutes"@
    ||| t == "mnt"@
    ||| t == "menit"@
}

/// The alias table rows for seconds: `s`, `sec`, `secs`, `second`, `seconds`
/// and Indonesian `dtk`, `detik`.
pub open spec fn is_seconds_alias(t: Seq<char>) -> bool {
    ||| t == "s"@
    ||| t == "sec"@
    ||| t == "secs"@
    ||| t == "second"@
    ||| t == "seconds"@
    ||| t == "dtk"@
    ||| t == "detik"@
}

/// The alias table rows for milliseconds: `ms`, `mil`, `mill`, `milli`,
/// `millis`, `msec`, `msecs` and the one-l spellings `milisec`,
/// `milisecond`, `miliseconds`.
pub open spec fn is_milliseconds_alias(t: Seq<char>) -> bool {
    ||| t == "ms"@
    ||| t == "mil"@
    ||| t == "mill"@
    ||| t == "milli"@
    ||| t == "millis"@
    ||| t == "msec"@
    ||| t == "msecs"@
    ||| t == "milisec"@
    ||| t == "milisecond"@
    ||| t == "miliseconds"@
}

/// The unit lexicon: maps an alphabetic token to its scale, or `None` when
/// the token is not in the alias table.  Case-sensitive; the rows are
/// pairwise disjoint, so the order of the checks does not matter.
pub open spec fn scale_of(t: Seq<char>) -> Option<TimeScale> {
    if is_years_alias(t) {
        Some(TimeScale::Years)
    } else if is_months_alias(t) {
        Some(TimeScale::Months)
    } else if is_weeks_alias(t) {
        Some(TimeScale::Weeks)
    } else if is_days_alias(t) {
        Some(TimeScale::Days)
    } else if is_hours_alias(t) {
        Some(TimeScale::Hours)
    } else if is_minutes_alias(t) {
        Some(TimeScale::Minutes)
    } else if is_seconds_alias(t) {
        Some(TimeScale::Seconds)
    } else if is_milliseconds_alias(t) {
        Some(TimeScale::Milliseconds)
    } else {
        None
    }
}

/// Every alias in the lexicon is a non-empty, purely alphabetic token; this
/// is what lets a parsed alias sit exactly in the maximal alphabetic run.
pub proof fn lemma_alias_token_alpha(t: Seq<char>)
    requires
        scale_of(t) is Some,
    ensures
        t.len() >= 1,
        forall|k: int| 0 <= k < t.len() ==> is_alpha_char(#[trigger] t[k]),
{
    reveal_strlit("y");
    reveal_strlit("year");
    reveal_strlit("years");
    reveal_strlit("t");
    reveal_strlit("thn");
    reveal_strlit("tahun");
    reveal_strlit("M");
    reveal_strlit("mo");
    reveal_strlit("month");
    reveal_strlit("months");
    reveal_strlit("b");
    reveal_strlit("bln");
    reveal_strlit("bulan");
    reveal_strlit("w");
    reveal_strlit("wk");
    reveal_strlit("week");
    reveal_strlit("weeks");
    reveal_strlit("mng");
    reveal_strlit("minggu");
    reveal_strlit("d");
    reveal_strlit("day");
    reveal_strlit("days");
    reveal_strlit("hari");
    reveal_strlit("h");
    reveal_strlit("hr");
    reveal_strlit("hrs");
    reveal_strlit("hour");
    reveal_strlit("hours");
    reveal_strlit("j");
    reveal_strlit("jam");
    reveal_strlit("m");
    reveal_strlit("min");
    reveal_strlit("mins");
    reveal_strlit("minute");
    reveal_strlit("minutes");
    reveal_strlit("mnt");
    reveal_strlit("menit");
    reveal_strlit("s");
    reveal_strlit("sec");
    reveal_strlit("secs");
    reveal_strlit("second");
    reveal_strlit("seconds");
    reveal_strlit("dtk");
    reveal_strlit("detik");
    reveal_strlit("ms");
    reveal_strlit("mil");
    reveal_strlit("mill");
    reveal_strlit("milli");
    reveal_strlit("millis");
    reveal_strlit("msec");
    reveal_strlit("msecs");
    reveal_strlit("milisec");
    reveal_strlit("milisecond");
    reveal_strlit("miliseconds");
}

} // verus!
