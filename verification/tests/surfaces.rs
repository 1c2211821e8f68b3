use swaypplet::alpha::{SurfaceAlpha, OPAQUE};
use swaypplet::anim::{blur_command, Act, Motion, Reveal};
use swaypplet::auth_field::{Caption, Rank, Tip, Tone, CAPS_TEXT};
use swaypplet::avatar::{hue_for, initial};
use swaypplet::handoff::{
    bounds, place, surface_origin, usable_area, Area, Axis, Edge, Surface,
};
use swaypplet::icons::{
    volume_icon, MIC, MIC_MUTED, SPEAKER_HIGH, SPEAKER_LOW, SPEAKER_MED, SPEAKER_MUTED,
};

#[test]
fn a_taken_down_surface_is_never_written_to() {
    let mut a = SurfaceAlpha::attach(7);
    assert!(!a.set_pending(Some(7), OPAQUE));
    assert!(a.set_pending(Some(7), 5));
    assert!(!a.set_pending(Some(7), 5));
    assert!(!a.set_pending(Some(8), 6));
    assert!(!a.set_pending(None, 6));
    a.unrealized();
    assert!(!a.is_valid(Some(7)));
    assert!(!a.set_pending(Some(7), 6));
}

#[test]
fn glass_and_blur_are_turned_together() {
    assert_eq!(
        blur_command("swaypplet-panel", true),
        "layer_effects \"swaypplet-panel\" \"blur enable; liquid_glass enable\""
    );
    assert_eq!(
        blur_command("p", false),
        "layer_effects \"p\" \"blur disable; liquid_glass disable\""
    );
}

#[test]
fn frost_comes_off_before_the_surface_goes() {
    let mut r = Reveal::new(true, true);
    assert_eq!(
        r.show(true, true, false),
        [
            Act::Present,
            Act::Rebind,
            Act::FrostOn,
            Act::PoseHidden,
            Act::Start(Motion::Enter)
        ]
    );
    assert!(r.motion_done().is_empty());
    assert_eq!(r.dismiss(true), [Act::Start(Motion::Exit)]);
    assert_eq!(r.motion_done(), [Act::PoseHidden, Act::FrostOff]);
    assert_eq!(r.frost_gone(), [Act::Unmap, Act::Hidden]);
    assert!(!r.mapped);
}

#[test]
fn a_show_during_the_exit_wins() {
    let mut r = Reveal::new(true, true);
    r.show(false, false, false);
    r.dismiss(true);
    r.motion_done();
    r.show(true, false, true);
    assert_eq!(r.frost_gone(), [Act::FrostOn]);
    assert!(r.mapped && r.shown);
}

#[test]
fn the_owner_is_told_once() {
    let mut r = Reveal::new(false, true);
    assert_eq!(r.show(false, false, false), [Act::Present, Act::Halt, Act::PoseShown]);
    assert_eq!(
        r.dismiss(false),
        [Act::Halt, Act::PoseHidden, Act::Unmap, Act::Hidden]
    );
    assert_eq!(r.dismiss(false), [Act::Halt, Act::PoseHidden]);
}

#[test]
fn a_status_holds_until_it_is_cleared() {
    let mut c = Caption::new();
    let line = c.set_resting("Enter your password").line.unwrap();
    assert_eq!(line.text, "Enter your password");
    assert_eq!(c.set_resting("Enter your password").line, None);
    let paint = c.status("Wrong password", Tone::Error, true);
    let line = paint.line.unwrap();
    assert_eq!(line.class, "auth-caption-error");
    assert!(line.caps);
    assert_eq!(paint.tooltip, Tip::Clear);
    assert_eq!(c.fp_hint("Center your finger").line, None);
    assert_eq!(c.caps_edge().line, None);
    assert_eq!(c.clear_status().line.unwrap().text, "Enter your password");
    assert_eq!(c.clear_status().line, None);
}

#[test]
fn a_hint_gives_way_after_its_dwell() {
    let mut c = Caption::new();
    c.set_resting("rest");
    let (epoch, rank) = c.fp_hint("again").dwell.unwrap();
    assert_eq!(rank, Rank::FpHint);
    let caps = c.caps_edge();
    assert_eq!(caps.line.unwrap().text, CAPS_TEXT);
    // The hint's dwell is stale: somebody else has spoken since.
    assert_eq!(c.dwell_over(epoch, rank).line, None);
    let (epoch, rank) = caps.dwell.unwrap();
    assert_eq!(c.dwell_over(epoch, rank).line.unwrap().text, "rest");
}

#[test]
fn a_long_status_stays_reachable() {
    let mut c = Caption::new();
    let long = "x".repeat(81);
    assert_eq!(c.status(&long, Tone::Info, true).tooltip, Tip::Show(long));
    assert_eq!(c.status(&"x".repeat(80), Tone::Info, true).tooltip, Tip::Clear);
    // Bytes are counted: forty-one of these are eighty-two.
    let wide = "å".repeat(41);
    assert_eq!(c.status(&wide, Tone::Success, false).tooltip, Tip::Show(wide));
}

#[test]
fn a_name_has_a_hue_and_an_initial() {
    assert_eq!(hue_for(""), 185);
    assert_eq!(hue_for("meros"), 314);
    assert_eq!(hue_for("melvin"), 63);
    assert_eq!(initial("meros"), "M");
    assert_eq!(initial("åsa"), "Å");
    assert_eq!(initial("ßen"), "SS");
    assert_eq!(initial(""), "");
}

#[test]
fn loudness_has_three_steps() {
    let at = |level: f64| volume_icon((level * 65536.0) as u32, false, false);
    assert_eq!(at(0.0), SPEAKER_LOW);
    assert_eq!(at(0.33), SPEAKER_LOW);
    assert_eq!(at(0.35), SPEAKER_MED);
    assert_eq!(at(0.66), SPEAKER_MED);
    assert_eq!(at(0.68), SPEAKER_HIGH);
    assert_eq!(volume_icon(65536, true, false), SPEAKER_MUTED);
    assert_eq!(volume_icon(0, false, true), MIC);
    assert_eq!(volume_icon(0, true, true), MIC_MUTED);
}

fn axis(anchored_start: bool, anchored_end: bool) -> Axis {
    Axis {
        start: 100,
        len: 1000,
        size: 301,
        margin_start: 10,
        margin_end: 20,
        anchored_start,
        anchored_end,
    }
}

#[test]
fn a_surface_begins_at_its_edge_or_between_its_margins() {
    assert_eq!(place(&axis(true, false)), 2 * 110);
    assert_eq!(place(&axis(false, true)), 2 * (1100 - 301 - 20));
    // Half pixels: an odd rest is split evenly.
    assert_eq!(place(&axis(true, true)), 2 * 110 + (1000 - 30 - 301));
    assert_eq!(place(&axis(false, false)), place(&axis(true, true)));
}

#[test]
fn the_usable_area_is_that_of_the_shown_workspace() {
    let area = |output: &str, visible: bool, x: i32| Area {
        output: output.into(),
        visible,
        x,
        y: 2,
        width: 3,
        height: 4,
    };
    let areas = vec![area("a", false, 1), area("b", true, 5), area("a", true, 7)];
    assert_eq!(usable_area(&areas, "a"), Some((7, 2, 3, 4)));
    assert_eq!(usable_area(&areas, "c"), None);
}

#[test]
fn a_surface_without_a_zone_is_placed_in_what_the_others_leave() {
    let output = (0, 0, 1920, 1080);
    let usable = Some((0, 0, 1920, 1042));
    assert_eq!(bounds(output, 0, usable), (0, 0, 1920, 1042));
    assert_eq!(bounds(output, 38, usable), output);
    assert_eq!(bounds(output, -1, usable), output);
    assert_eq!(bounds(output, 0, None), output);

    let edge = |anchored, margin| Edge { anchored, margin };
    let card = Surface {
        width: 300,
        height: 101,
        left: edge(false, 0),
        right: edge(false, 0),
        top: edge(false, 0),
        bottom: edge(true, 10),
        exclusive_zone: 0,
    };
    // Centred across, and above the bar.
    assert_eq!(
        surface_origin(Some(&card), Some(output), usable),
        Some((2 * 810, 2 * 931))
    );
    let bar = Surface { exclusive_zone: 38, ..card };
    assert_eq!(
        surface_origin(Some(&bar), Some(output), usable),
        Some((2 * 810, 2 * 969))
    );
    assert_eq!(surface_origin(None, Some(output), usable), None);
    assert_eq!(surface_origin(Some(&card), None, usable), None);
}

#[test]
fn a_surface_unmapped_by_another_enters_from_the_hidden_pose() {
    let mut r = Reveal::new(false, false);
    r.show(true, true, true);
    r.motion_done();
    assert_eq!(
        r.show(true, false, false),
        [Act::Present, Act::Start(Motion::Enter)]
    );
    r.motion_done();
    r.unmapped();
    assert_eq!(
        r.show(true, false, false),
        [Act::Present, Act::PoseHidden, Act::Start(Motion::Enter)]
    );
}
