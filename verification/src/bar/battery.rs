//! The battery segment: a dim glyph at rest, amber at 30 %, red at 15 %.

use vstd::prelude::*;
use vstd::string::*;
use crate::text::{decimal, push_decimal, text_of};

verus! {

/// At or below this charge the segment turns amber.
pub const WARNING_PCT: u8 = 30;

/// At or below this charge the segment turns red, and the battery takes the
/// decision slot.
pub const CRITICAL_PCT: u8 = 15;

pub const ICON_CHARGING: &'static str = "󰂄";

/// Plugged in with no current flowing: full, or holding at a charge threshold.
pub const ICON_PLUGGED: &'static str = "󰚥";

/// What the charge does.
#[derive(Debug, Clone, Copy, PartialEq, Eq, Structural)]
pub enum ChargeState {
    Charging,
    Full,
    Idle,
    Discharging,
    Unknown,
}

/// How loud the segment is.
#[derive(Debug, Clone, Copy, PartialEq, Eq, Structural)]
pub enum Tier {
    Rest,
    Warning,
    Critical,
}

/// How loud a battery is. A plugged one always rests.
pub fn tier(capacity: u8, plugged: bool) -> (r: Tier)
    ensures
        r == loudness(capacity, plugged),
{
    if plugged {
        Tier::Rest
    } else if capacity <= CRITICAL_PCT {
        Tier::Critical
    } else if capacity <= WARNING_PCT {
        Tier::Warning
    } else {
        Tier::Rest
    }
}

/// How loud a battery is.
pub open spec fn loudness(capacity: u8, plugged: bool) -> Tier {
    if plugged || capacity > WARNING_PCT {
        Tier::Rest
    } else if capacity > CRITICAL_PCT {
        Tier::Warning
    } else {
        Tier::Critical
    }
}

/// One glyph for each ten percent.
pub open spec fn bucket(capacity: u8) -> &'static str {
    let step = capacity / 10;
    if step == 0 {
        "󰂎"
    } else if step == 1 {
        "󰁺"
    } else if step == 2 {
        "󰁻"
    } else if step == 3 {
        "󰁼"
    } else if step == 4 {
        "󰁽"
    } else if step == 5 {
        "󰁾"
    } else if step == 6 {
        "󰁿"
    } else if step == 7 {
        "󰁿"
    } else if step == 8 {
        "󰂁"
    } else if step == 9 {
        "󰂂"
    } else {
        "󰁹"
    }
}

/// The glyph of a battery.
pub open spec fn glyph(capacity: u8, state: ChargeState) -> &'static str {
    match state {
        ChargeState::Charging => ICON_CHARGING,
        ChargeState::Full | ChargeState::Idle => ICON_PLUGGED,
        ChargeState::Discharging | ChargeState::Unknown => bucket(capacity),
    }
}

/// The glyph of a battery: by its charge, with the two mains states taking
/// their own.
pub fn icon(capacity: u8, state: ChargeState) -> (r: &'static str)
    ensures
        r == glyph(capacity, state),
{
    match state {
        ChargeState::Charging => ICON_CHARGING,
        ChargeState::Full | ChargeState::Idle => ICON_PLUGGED,
        ChargeState::Discharging | ChargeState::Unknown => {
            let step: u8 = capacity / 10;
            match step {
                0 => "󰂎",
                1 => "󰁺",
                2 => "󰁻",
                3 => "󰁼",
                4 => "󰁽",
                5 => "󰁾",
                6 => "󰁿",
                7 => "󰁿",
                8 => "󰂁",
                9 => "󰂂",
                _ => "󰁹",
            }
        },
    }
}

/// What changes where the loudness changes.
#[derive(Debug, Clone, Copy, PartialEq, Eq, Structural)]
pub struct Edge {
    pub warning: bool,
    pub critical: bool,
    /// The percentage shows.
    pub percent: bool,
    /// Nudge once.
    pub nudge: bool,
}

/// What a reading changes on the segment.
#[derive(Debug, PartialEq, Eq)]
pub struct Reading {
    /// The new percentage text; at rest it stays as it was.
    pub percent: Option<String>,
    pub edge: Option<Edge>,
}

/// The segment: how loud it is, once the battery was read.
#[derive(Debug)]
pub struct Segment {
    tier: Option<Tier>,
}

impl View for Segment {
    type V = Option<Tier>;

    closed spec fn view(&self) -> Option<Tier> {
        self.tier
    }
}

/// The edge from one loudness to another, if it is one. The first reading is
/// an edge but never an onset.
pub open spec fn edge(prev: Option<Tier>, t: Tier) -> Option<Edge> {
    if prev == Some(t) {
        None
    } else {
        Some(
            Edge {
                warning: t == Tier::Warning,
                critical: t == Tier::Critical,
                percent: t != Tier::Rest,
                nudge: t == Tier::Critical && prev is Some,
            },
        )
    }
}

impl Segment {
    /// A segment before its first reading.
    pub fn new() -> (r: Segment)
        ensures
            r@ is None,
    {
        Segment { tier: None }
    }

    /// Takes a reading.
    pub fn apply(&mut self, capacity: u8, plugged: bool) -> (r: Reading)
        ensures
            final(self)@ == Some(loudness(capacity, plugged)),
            r.edge == edge(old(self)@, loudness(capacity, plugged)),
            text_of(r.percent) == if loudness(capacity, plugged) == Tier::Rest {
                None
            } else {
                Some(decimal(capacity as nat) + "%"@)
            },
    {
        let t = tier(capacity, plugged);
        let percent = if t == Tier::Rest {
            None
        } else {
            let mut s = String::new();
            push_decimal(&mut s, capacity as u64);
            s.append("%");
            assert(s@ =~= decimal(capacity as nat) + "%"@);
            Some(s)
        };
        let prev = self.tier;
        self.tier = Some(t);
        let unchanged = match prev {
            Some(p) => p == t,
            None => false,
        };
        if unchanged {
            return Reading { percent, edge: None };
        }
        Reading {
            percent,
            edge: Some(
                Edge {
                    warning: t == Tier::Warning,
                    critical: t == Tier::Critical,
                    percent: t != Tier::Rest,
                    nudge: t == Tier::Critical && prev.is_some(),
                },
            ),
        }
    }
}

/// The charger stands every tier down, at any charge.
pub proof fn law_charger_stands_down(capacity: u8)
    ensures
        loudness(capacity, true) == Tier::Rest,
{
}

/// A reading that leaves the loudness as it was restyles nothing, and one
/// nudge comes exactly where the battery turns critical after an earlier
/// reading.
pub proof fn law_edges_only(prev: Tier, t: Tier)
    ensures
        edge(Some(prev), t) is None <==> prev == t,
        edge(Some(prev), t) is Some ==> (edge(Some(prev), t)->0.nudge <==> t == Tier::Critical),
        edge(None, t) is Some && !edge(None, t)->0.nudge,
{
}

/// On battery the segment is red up to 15 %, amber up to 30 %, and rests above.
pub proof fn law_how_loud_a_charge_is(capacity: u8)
    ensures
        capacity <= 15 ==> loudness(capacity, false) == Tier::Critical,
        15 < capacity <= 30 ==> loudness(capacity, false) == Tier::Warning,
        capacity > 30 ==> loudness(capacity, false) == Tier::Rest,
{
}

/// An edge styles the segment for the loudness it comes to: at most one of the
/// two colors, and the percentage with either.
pub proof fn law_what_an_edge_styles(prev: Option<Tier>, t: Tier)
    requires
        prev != Some(t),
    ensures
        edge(prev, t) is Some,
        t == Tier::Rest ==> !edge(prev, t)->0.warning && !edge(prev, t)->0.critical && !edge(
            prev,
            t,
        )->0.percent && !edge(prev, t)->0.nudge,
        t == Tier::Warning ==> edge(prev, t)->0.warning && !edge(prev, t)->0.critical && edge(
            prev,
            t,
        )->0.percent && !edge(prev, t)->0.nudge,
        t == Tier::Critical ==> !edge(prev, t)->0.warning && edge(prev, t)->0.critical && edge(
            prev,
            t,
        )->0.percent,
{
}

/// The glyph goes by tens of percent: an empty battery below ten, a full one
/// from a hundred, and the same glyph within ten.
pub proof fn law_a_glyph_for_each_ten(a: u8, b: u8)
    ensures
        a / 10 == b / 10 ==> bucket(a) == bucket(b),
        a < 10 ==> bucket(a) == "󰂎",
        10 <= a < 20 ==> bucket(a) == "󰁺",
        20 <= a < 30 ==> bucket(a) == "󰁻",
        30 <= a < 40 ==> bucket(a) == "󰁼",
        40 <= a < 50 ==> bucket(a) == "󰁽",
        50 <= a < 60 ==> bucket(a) == "󰁾",
        60 <= a < 80 ==> bucket(a) == "󰁿",
        80 <= a < 90 ==> bucket(a) == "󰂁",
        90 <= a < 100 ==> bucket(a) == "󰂂",
        a >= 100 ==> bucket(a) == "󰁹",
{
}

/// On the mains the glyph says what the current does and not how much charge
/// there is; off them it says the charge.
pub proof fn law_the_mains_take_their_own_glyph(capacity: u8, state: ChargeState)
    ensures
        state is Charging ==> glyph(capacity, state) == "󰂄",
        state is Full || state is Idle ==> glyph(capacity, state) == "󰚥",
        state is Discharging || state is Unknown ==> glyph(capacity, state) == bucket(capacity),
{
}

} // verus!
