//! The presence readout: whether the idle manager sees somebody.

use vstd::prelude::*;
use vstd::string::*;
use crate::text::{concat2, decimal_signed, decimal_signed_of};

verus! {

pub const ICON_PRESENT: &'static str = "󰈈";

pub const ICON_AWAY: &'static str = "󰈉";

/// What the idle manager reports.
#[derive(Debug, Clone, Copy, PartialEq, Eq, Structural)]
pub enum Event {
    Changed(bool),
    Attention(i32),
}

/// What was last reported; each is held until it is reported anew.
#[derive(Debug, Clone, Copy, PartialEq, Eq, Structural)]
pub struct Readout {
    pub present: Option<bool>,
    pub attention: Option<i32>,
}

/// What the segment shows.
#[derive(Debug, PartialEq, Eq)]
pub struct Shown {
    pub icon: &'static str,
    pub away: bool,
    pub tooltip: String,
}

/// The attention, where it was reported.
pub open spec fn attention_words(attention: Option<i32>) -> Seq<char> {
    match attention {
        Some(a) => ", attention "@ + decimal_signed(a as int),
        None => Seq::empty(),
    }
}

/// The tooltip of a readout.
pub open spec fn presence_tip(r: Readout) -> Seq<char> {
    match r.present {
        Some(true) => "Present"@ + attention_words(r.attention),
        Some(false) => "Away"@ + attention_words(r.attention),
        None => "Presence sensor unreadable"@,
    }
}

impl Readout {
    /// Nothing was reported yet.
    pub fn new() -> (r: Readout)
        ensures
            r.present is None,
            r.attention is None,
    {
        Readout { present: None, attention: None }
    }

    /// Takes a report.
    pub fn take(&mut self, event: Event)
        ensures
            *final(self) == match event {
                Event::Changed(p) => Readout { present: Some(p), ..*old(self) },
                Event::Attention(a) => Readout { attention: Some(a), ..*old(self) },
            },
    {
        match event {
            Event::Changed(state) => self.present = Some(state),
            Event::Attention(value) => self.attention = Some(value),
        }
    }

    /// What the segment shows; anything but a known presence counts as away.
    pub fn draw(&self) -> (r: Shown)
        ensures
            r.away == (self.present != Some(true)),
            r.icon == if r.away {
                ICON_AWAY
            } else {
                ICON_PRESENT
            },
            r.tooltip@ == presence_tip(*self),
    {
        let mut attention = String::new();
        if let Some(a) = self.attention {
            let n = decimal_signed_of(a as i64);
            attention = concat2(", attention ", n.as_str());
        }
        assert(attention@ =~= attention_words(self.attention));
        match self.present {
            Some(true) => Shown {
                icon: ICON_PRESENT,
                away: false,
                tooltip: concat2("Present", attention.as_str()),
            },
            Some(false) => Shown {
                icon: ICON_AWAY,
                away: true,
                tooltip: concat2("Away", attention.as_str()),
            },
            None => Shown {
                icon: ICON_AWAY,
                away: true,
                tooltip: "Presence sensor unreadable".to_owned(),
            },
        }
    }
}

/// The tooltip says whether somebody is there, and the attention with it; while
/// the presence is not known it says so, whatever the attention.
pub proof fn law_what_the_tooltip_says(present: bool, attention: i32)
    ensures
        presence_tip(Readout { present: None, attention: Some(attention) })
            == "Presence sensor unreadable"@,
        presence_tip(Readout { present: None, attention: None }) == "Presence sensor unreadable"@,
        presence_tip(Readout { present: Some(present), attention: None }) == if present {
            "Present"@
        } else {
            "Away"@
        },
        presence_tip(Readout { present: Some(present), attention: Some(attention) }) == (
        if present {
            "Present"@
        } else {
            "Away"@
        }) + ", attention "@ + decimal_signed(attention as int),
{
    let head = if present {
        "Present"@
    } else {
        "Away"@
    };
    assert(head + Seq::<char>::empty() =~= head);
    assert(head + (", attention "@ + decimal_signed(attention as int)) =~= head + ", attention "@
        + decimal_signed(attention as int));
}

} // verus!
