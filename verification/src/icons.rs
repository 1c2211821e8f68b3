//! Glyphs.

use vstd::prelude::*;

verus! {

pub const SPEAKER_HIGH: &'static str = "󰕾";

pub const SPEAKER_MED: &'static str = "󰖀";

pub const SPEAKER_LOW: &'static str = "󰕿";

pub const SPEAKER_MUTED: &'static str = "󰖁";

pub const MIC: &'static str = "󰍬";

pub const MIC_MUTED: &'static str = "󰍭";

pub const BRIGHTNESS: &'static str = "󰃟";

pub const NOTIFICATION: &'static str = "󰂚";

pub const NOTIFICATION_CLEAR: &'static str = "󰂛";

pub const CLOSE: &'static str = "󰅖";

pub const CAPS_ON: &'static str = "A";

pub const CAPS_OFF: &'static str = "a";

pub const NUM_ON: &'static str = "1";

pub const NUM_OFF: &'static str = "#";

/// The first loudness that is no longer low: 0.34 of full volume, in the
/// unit of the sound server.
pub const MED_FROM: u32 = 22_283;

/// The first loudness that is high: 0.67 of full volume.
pub const HIGH_FROM: u32 = 43_910;

/// The glyph for a loudness.
pub fn volume_icon(volume: u32, muted: bool, is_mic: bool) -> (r: &'static str)
    ensures
        r == if is_mic {
            if muted {
                MIC_MUTED
            } else {
                MIC
            }
        } else if muted {
            SPEAKER_MUTED
        } else if volume < MED_FROM {
            SPEAKER_LOW
        } else if volume < HIGH_FROM {
            SPEAKER_MED
        } else {
            SPEAKER_HIGH
        },
{
    if is_mic {
        return if muted {
            MIC_MUTED
        } else {
            MIC
        };
    }
    if muted {
        SPEAKER_MUTED
    } else if volume < MED_FROM {
        SPEAKER_LOW
    } else if volume < HIGH_FROM {
        SPEAKER_MED
    } else {
        SPEAKER_HIGH
    }
}

/// The glyphs change at a third and at two thirds of full volume: at the first
/// loudness of at least 0.34, and of at least 0.67, of 65536.
pub proof fn law_the_glyphs_change_by_thirds()
    ensures
        MED_FROM * 100 >= 34 * 65_536,
        (MED_FROM - 1) * 100 < 34 * 65_536,
        HIGH_FROM * 100 >= 67 * 65_536,
        (HIGH_FROM - 1) * 100 < 67 * 65_536,
{
}

} // verus!
