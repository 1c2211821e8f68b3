use swaypplet::bar::clock::{clock_pattern, clock_text, millis_to_next_minute, Bar};

/// 2 August 2026 at some time of day, written after a pattern.
fn written(pattern: &str, hour: u32, minute: u32) -> String {
    let half = if hour < 12 { "AM" } else { "PM" };
    let twelve = if hour % 12 == 0 { 12 } else { hour % 12 };
    pattern
        .replace("%Y", "2026")
        .replace("%m", "08")
        .replace("%d", "02")
        .replace("%H", &format!("{hour:02}"))
        .replace("%M", &format!("{minute:02}"))
        .replace("%-I", &format!("{twelve}"))
        .replace("%p", half)
        .replace("%a", "Sun")
        .replace("%-d", "2")
        .replace("%b", "Aug")
}

fn at(hour: u32, minute: u32, show_date: bool, bar: &Bar) -> String {
    let text = written(clock_pattern(show_date, bar), hour, minute);
    clock_text(Some(&text), show_date)
}

#[test]
fn time_format_is_hours_minutes() {
    assert_eq!(at(14, 5, false, &Bar::default()), "󰥔 14:05");
}

#[test]
fn alt_format_is_iso_date_whatever_the_settings() {
    let bar = Bar {
        clock_24h: false,
        clock_date: true,
    };
    assert_eq!(at(14, 5, true, &bar), "󰃮 2026-08-02");
}

#[test]
fn twelve_hour_and_the_date_beside_the_time() {
    let bar = Bar {
        clock_24h: false,
        clock_date: true,
    };
    assert_eq!(at(14, 5, false, &bar), "󰥔 2:05 PM  Sun 2 Aug");
    let bar = Bar {
        clock_date: true,
        ..Bar::default()
    };
    assert_eq!(at(9, 5, false, &bar), "󰥔 09:05  Sun 2 Aug");
}

#[test]
fn a_time_that_cannot_be_written_leaves_the_glyph() {
    assert_eq!(clock_text(None, false), "󰥔");
    assert_eq!(clock_text(None, true), "󰃮");
}

#[test]
fn the_clock_ticks_just_past_the_minute() {
    // 14:05:09 is nine seconds into its minute.
    assert_eq!(millis_to_next_minute(Some(9_000_000)), 51_050);
    assert_eq!(millis_to_next_minute(Some(0)), 60_050);
    assert_eq!(millis_to_next_minute(Some(59_999_999)), 51);
    assert_eq!(millis_to_next_minute(Some(60_000_000)), 50);
    assert_eq!(millis_to_next_minute(None), 60_000);
}
