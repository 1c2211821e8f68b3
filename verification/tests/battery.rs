use swaypplet::bar::battery::{icon, tier, ChargeState, Edge, Segment, Tier, ICON_CHARGING};

#[test]
fn icon_buckets_cover_the_range() {
    assert_eq!(icon(0, ChargeState::Discharging), "󰂎");
    assert_eq!(icon(9, ChargeState::Discharging), "󰂎");
    assert_eq!(icon(55, ChargeState::Discharging), "󰁾");
    assert_eq!(icon(100, ChargeState::Discharging), "󰁹");
    // A capacity out of range must not index past the table.
    assert_eq!(icon(255, ChargeState::Discharging), "󰁹");
}

#[test]
fn charging_overrides_the_bucket() {
    assert_eq!(icon(3, ChargeState::Charging), ICON_CHARGING);
    assert_eq!(icon(100, ChargeState::Charging), ICON_CHARGING);
}

#[test]
fn tiers_step_on_the_spec_thresholds() {
    assert_eq!(tier(100, false), Tier::Rest);
    assert_eq!(tier(31, false), Tier::Rest);
    assert_eq!(tier(30, false), Tier::Warning);
    assert_eq!(tier(16, false), Tier::Warning);
    assert_eq!(tier(15, false), Tier::Critical);
    assert_eq!(tier(0, false), Tier::Critical);
}

#[test]
fn charging_stands_every_tier_down() {
    // Both clear on charger connect: the bolt at 5 % is a resting glyph.
    assert_eq!(tier(30, true), Tier::Rest);
    assert_eq!(tier(5, true), Tier::Rest);
}

#[test]
fn only_edges_change_the_segment_and_only_an_onset_nudges() {
    let mut s = Segment::new();
    // The first reading is an edge but never an onset.
    let r = s.apply(10, false);
    assert_eq!(r.percent, Some("10%".into()));
    assert_eq!(
        r.edge,
        Some(Edge {
            warning: false,
            critical: true,
            percent: true,
            nudge: false
        })
    );
    let r = s.apply(9, false);
    assert_eq!(r.percent, Some("9%".into()));
    assert_eq!(r.edge, None);
    let r = s.apply(9, true);
    assert_eq!(r.percent, None);
    assert!(!r.edge.unwrap().percent);
    assert!(s.apply(9, false).edge.unwrap().nudge);
}
