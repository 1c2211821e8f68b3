//! The clock: how the time is written, and when it is written anew.

use vstd::prelude::*;
use vstd::string::*;
use crate::text::concat3;

verus! {

pub const ICON_TIME: &'static str = "󰥔";

pub const ICON_DATE: &'static str = "󰃮";

/// What the settings say of the clock.
#[derive(Debug, Clone, Copy, PartialEq, Eq, Structural)]
pub struct Bar {
    pub clock_24h: bool,
    /// The date stands beside the time.
    pub clock_date: bool,
}

impl Default for Bar {
    /// 24 hours, without the date.
    fn default() -> (r: Bar)
        ensures
            r == (Bar { clock_24h: true, clock_date: false }),
    {
        Bar { clock_24h: true, clock_date: false }
    }
}

/// How the clock is written, in the conversions of `strftime`. The alternative
/// view is always the ISO date, whatever the settings say.
pub open spec fn pattern(show_date: bool, bar: Bar) -> &'static str {
    if show_date {
        "%Y-%m-%d"
    } else if bar.clock_24h && bar.clock_date {
        "%H:%M  %a %-d %b"
    } else if bar.clock_24h {
        "%H:%M"
    } else if bar.clock_date {
        "%-I:%M %p  %a %-d %b"
    } else {
        "%-I:%M %p"
    }
}

/// How the clock is written.
pub fn clock_pattern(show_date: bool, bar: &Bar) -> (r: &'static str)
    ensures
        r == pattern(show_date, *bar),
{
    if show_date {
        "%Y-%m-%d"
    } else if bar.clock_24h {
        if bar.clock_date {
            "%H:%M  %a %-d %b"
        } else {
            "%H:%M"
        }
    } else if bar.clock_date {
        "%-I:%M %p  %a %-d %b"
    } else {
        "%-I:%M %p"
    }
}

/// The label of the clock, for the time as written by [`clock_pattern`]; the
/// bare glyph where it could not be written.
pub fn clock_text(written: Option<&str>, show_date: bool) -> (r: String)
    ensures
        r@ == {
            let icon = if show_date {
                ICON_DATE@
            } else {
                ICON_TIME@
            };
            match written {
                Some(s) => icon + " "@ + s@,
                None => icon,
            }
        },
{
    let icon = if show_date {
        ICON_DATE
    } else {
        ICON_TIME
    };
    match written {
        Some(s) => concat3(icon, " ", s),
        None => icon.to_owned(),
    }
}

/// Microseconds in a minute.
pub const MINUTE: u64 = 60_000_000;

/// How long to wait for the next minute, in milliseconds: 50 past it, so that
/// the fresh minute is already readable; within 50 to 60050 whatever was read.
pub open spec fn wait_for_minute(into: Option<u64>) -> int {
    let raw = match into {
        Some(us) => if us <= MINUTE {
            (MINUTE - us + 999) / 1000 + 50
        } else {
            50
        },
        None => 60_000,
    };
    if raw > 60_050 {
        60_050
    } else {
        raw
    }
}

/// How long to wait for the next minute, in milliseconds, given how many
/// microseconds of this minute have passed; `None` where the time could not be
/// read.
pub fn millis_to_next_minute(into: Option<u64>) -> (r: u64)
    ensures
        r == wait_for_minute(into),
{
    let raw: u64 = match into {
        Some(us) => if us <= MINUTE {
            (MINUTE - us + 999) / 1000 + 50
        } else {
            50
        },
        None => 60_000,
    };
    if raw > 60_050 {
        60_050
    } else {
        raw
    }
}

/// The wait ends past the minute it is aimed at, by less than 51 milliseconds.
pub proof fn law_the_tick_lands_past_the_minute(into: u64)
    requires
        into < MINUTE,
    ensures
        into + 1000 * wait_for_minute(Some(into)) >= MINUTE + 50_000,
        into + 1000 * wait_for_minute(Some(into)) < MINUTE + 51_000,
{
}

/// The alternative view is the ISO date, whatever the settings; the time is in
/// 24 or 12 hours as set, and the date stands behind it where asked for.
pub proof fn law_how_the_clock_is_written(bar: Bar)
    ensures
        pattern(true, bar) == "%Y-%m-%d",
        bar.clock_24h && !bar.clock_date ==> pattern(false, bar) == "%H:%M",
        bar.clock_24h && bar.clock_date ==> pattern(false, bar)@ == "%H:%M"@ + "  %a %-d %b"@,
        !bar.clock_24h && !bar.clock_date ==> pattern(false, bar) == "%-I:%M %p",
        !bar.clock_24h && bar.clock_date ==> pattern(false, bar)@ == "%-I:%M %p"@ + "  %a %-d %b"@,
{
    reveal_strlit("%H:%M");
    reveal_strlit("%-I:%M %p");
    reveal_strlit("  %a %-d %b");
    reveal_strlit("%H:%M  %a %-d %b");
    reveal_strlit("%-I:%M %p  %a %-d %b");
    assert("%H:%M  %a %-d %b"@ =~= "%H:%M"@ + "  %a %-d %b"@);
    assert("%-I:%M %p  %a %-d %b"@ =~= "%-I:%M %p"@ + "  %a %-d %b"@);
}

/// The wait is never shorter than 50 milliseconds nor longer than a minute and
/// 50; past the minute it is the shortest, and a minute where the time could
/// not be read.
pub proof fn law_the_wait_is_bounded(into: Option<u64>)
    ensures
        50 <= wait_for_minute(into) <= 60_050,
        into is None ==> wait_for_minute(into) == 60_000,
        into is Some && into->0 >= 60_000_000 ==> wait_for_minute(into) == 50,
        into == Some(0u64) ==> wait_for_minute(into) == 60_050,
{
}

} // verus!
